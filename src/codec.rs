use image::codecs::{bmp, farbfeld, gif, ico, jpeg, png, pnm, tga, tiff};
use image::{ColorType, ImageEncoder, ImageFormat};
use vstd::prelude::*;

verus! {

/// The image formats that a file extension can name.
#[derive(PartialEq, Eq, Structural, Clone, Copy, Debug)]
pub enum ImageKind {
    Png,
    Jpeg,
    Gif,
    Pnm,
    Tiff,
    Tga,
    Bmp,
    Ico,
    Farbfeld,
    /// A format that is known but has no encoder here (AVIF, WebP, DDS, HDR).
    Other,
}

/// The encoders that a grayscale raster can be written with.
#[derive(PartialEq, Eq, Structural, Clone, Copy, Debug)]
pub enum Codec {
    Gif,
    Ico,
    Jpeg,
    Png,
    Pbm,
    Pgm,
    Ppm,
    Pam,
    Farbfeld,
    Bmp,
    Tiff,
    Tga,
}

/// `ext` spells `name` (a lower-case ASCII word), ignoring ASCII case.
pub open spec fn ext_is(ext: Seq<char>, name: Seq<char>) -> bool {
    &&& ext.len() == name.len()
    &&& forall|i: int|
        0 <= i < ext.len() ==> ext[i] == name[i] || ('A' <= ext[i] <= 'Z' && ext[i] as u32 + 32 == name[i] as u32)
}

/// The format that a file extension names, ignoring ASCII case.
pub open spec fn image_kind_of(ext: Seq<char>) -> Option<ImageKind> {
    if ext_is(ext, seq!['j', 'p', 'g']) || ext_is(ext, seq!['j', 'p', 'e', 'g']) {
        Some(ImageKind::Jpeg)
    } else if ext_is(ext, seq!['p', 'n', 'g']) {
        Some(ImageKind::Png)
    } else if ext_is(ext, seq!['g', 'i', 'f']) {
        Some(ImageKind::Gif)
    } else if ext_is(ext, seq!['t', 'i', 'f']) || ext_is(ext, seq!['t', 'i', 'f', 'f']) {
        Some(ImageKind::Tiff)
    } else if ext_is(ext, seq!['t', 'g', 'a']) {
        Some(ImageKind::Tga)
    } else if ext_is(ext, seq!['b', 'm', 'p']) {
        Some(ImageKind::Bmp)
    } else if ext_is(ext, seq!['i', 'c', 'o']) {
        Some(ImageKind::Ico)
    } else if ext_is(ext, seq!['p', 'b', 'm']) || ext_is(ext, seq!['p', 'a', 'm']) || ext_is(ext, seq!['p', 'p', 'm'])
        || ext_is(ext, seq!['p', 'g', 'm']) {
        Some(ImageKind::Pnm)
    } else if ext_is(ext, seq!['f', 'f']) || ext_is(ext, seq!['f', 'a', 'r', 'b', 'f', 'e', 'l', 'd']) {
        Some(ImageKind::Farbfeld)
    } else if ext_is(ext, seq!['a', 'v', 'i', 'f']) || ext_is(ext, seq!['w', 'e', 'b', 'p']) || ext_is(
        ext,
        seq!['d', 'd', 's'],
    ) || ext_is(ext, seq!['h', 'd', 'r']) {
        Some(ImageKind::Other)
    } else {
        None
    }
}

/// Relies on image's `ImageFormat::from_extension`: the format that an
/// extension names, after ASCII lower-casing, by its fixed table.
#[verifier::external_body]
fn format_from_extension(ext: &str) -> (r: Option<ImageKind>)
    ensures
        r == image_kind_of(ext@),
{
    Some(match ImageFormat::from_extension(ext)? {
        ImageFormat::Png => ImageKind::Png,
        ImageFormat::Jpeg => ImageKind::Jpeg,
        ImageFormat::Gif => ImageKind::Gif,
        ImageFormat::Pnm => ImageKind::Pnm,
        ImageFormat::Tiff => ImageKind::Tiff,
        ImageFormat::Tga => ImageKind::Tga,
        ImageFormat::Bmp => ImageKind::Bmp,
        ImageFormat::Ico => ImageKind::Ico,
        ImageFormat::Farbfeld => ImageKind::Farbfeld,
        _ => ImageKind::Other,
    })
}

/// The encoder for a format; for the PNM family, the member that the
/// extension names.
pub open spec fn codec_for(kind: ImageKind, ext: Seq<char>) -> Option<Codec> {
    match kind {
        ImageKind::Png => Some(Codec::Png),
        ImageKind::Jpeg => Some(Codec::Jpeg),
        ImageKind::Gif => Some(Codec::Gif),
        ImageKind::Tiff => Some(Codec::Tiff),
        ImageKind::Tga => Some(Codec::Tga),
        ImageKind::Bmp => Some(Codec::Bmp),
        ImageKind::Ico => Some(Codec::Ico),
        ImageKind::Farbfeld => Some(Codec::Farbfeld),
        ImageKind::Pnm => if ext_is(ext, seq!['p', 'b', 'm']) {
            Some(Codec::Pbm)
        } else if ext_is(ext, seq!['p', 'g', 'm']) {
            Some(Codec::Pgm)
        } else if ext_is(ext, seq!['p', 'p', 'm']) {
            Some(Codec::Ppm)
        } else if ext_is(ext, seq!['p', 'a', 'm']) {
            Some(Codec::Pam)
        } else {
            None
        },
        ImageKind::Other => None,
    }
}

/// The encoder that a file extension selects, or `None` where it names no
/// format that can be written.
pub open spec fn codec_of_extension(ext: Seq<char>) -> Option<Codec> {
    match image_kind_of(ext) {
        Some(kind) => codec_for(kind, ext),
        None => None,
    }
}

/// Relies on `Vec::extend` with `str::chars`: the characters of `text`.
#[verifier::external_body]
pub(crate) fn chars_of(text: &str) -> (r: Vec<char>)
    ensures
        r@ == text@,
{
    let mut out = Vec::new();
    out.extend(text.chars());
    out
}

/// Whether `ext` spells `name`, ignoring ASCII case.
pub fn ext_matches(ext: &Vec<char>, name: &Vec<char>) -> (r: bool)
    requires
        forall|i: int| 0 <= i < name@.len() ==> 'a' <= #[trigger] name@[i] <= 'z',
    ensures
        r == ext_is(ext@, name@),
{
    if ext.len() != name.len() {
        return false;
    }
    let mut i: usize = 0;
    while i < ext.len()
        invariant
            ext@.len() == name@.len(),
            i <= ext@.len(),
            forall|j: int| 0 <= j < name@.len() ==> 'a' <= #[trigger] name@[j] <= 'z',
            forall|j: int|
                0 <= j < i ==> ext@[j] == name@[j] || ('A' <= ext@[j] <= 'Z' && ext@[j] as u32 + 32 == name@[j] as u32),
        decreases ext@.len() - i,
    {
        let c = ext[i];
        let n = name[i];
        if !(c == n || ('A' <= c && c <= 'Z' && (c as u32) + 32 == n as u32)) {
            return false;
        }
        i = i + 1;
    }
    true
}

/// Selects the encoder for a format and the extension that named it.
pub fn select_codec(kind: ImageKind, ext: &str) -> (r: Option<Codec>)
    ensures
        r == codec_for(kind, ext@),
{
    match kind {
        ImageKind::Png => Some(Codec::Png),
        ImageKind::Jpeg => Some(Codec::Jpeg),
        ImageKind::Gif => Some(Codec::Gif),
        ImageKind::Tiff => Some(Codec::Tiff),
        ImageKind::Tga => Some(Codec::Tga),
        ImageKind::Bmp => Some(Codec::Bmp),
        ImageKind::Ico => Some(Codec::Ico),
        ImageKind::Farbfeld => Some(Codec::Farbfeld),
        ImageKind::Pnm => {
            let e = chars_of(ext);
            let pbm = vec!['p', 'b', 'm'];
            let pgm = vec!['p', 'g', 'm'];
            let ppm = vec!['p', 'p', 'm'];
            let pam = vec!['p', 'a', 'm'];
            assert(pbm@ == seq!['p', 'b', 'm']);
            assert(pgm@ == seq!['p', 'g', 'm']);
            assert(ppm@ == seq!['p', 'p', 'm']);
            assert(pam@ == seq!['p', 'a', 'm']);
            if ext_matches(&e, &pbm) {
                Some(Codec::Pbm)
            } else if ext_matches(&e, &pgm) {
                Some(Codec::Pgm)
            } else if ext_matches(&e, &ppm) {
                Some(Codec::Ppm)
            } else if ext_matches(&e, &pam) {
                Some(Codec::Pam)
            } else {
                None
            }
        },
        ImageKind::Other => None,
    }
}

/// The encoder that a file extension selects: the format that image's table
/// gives it, then the member of the PNM family.
pub fn codec_from_extension(ext: &str) -> (r: Option<Codec>)
    ensures
        r == codec_of_extension(ext@),
{
    match format_from_extension(ext) {
        Some(kind) => select_codec(kind, ext),
        None => None,
    }
}



/// The bytes that image's png encoder writes for an 8-bit grayscale raster, or
/// `None` where it refuses it.
pub uninterp spec fn png_bytes(samples: Seq<u8>, width: u32, height: u32) -> Option<Seq<u8>>;

/// Relies on image's `PngEncoder::write_image` on an 8-bit grayscale raster (`ColorType::L8`)
/// into memory: its bytes depend on the raster alone.
#[verifier::external_body]
fn encode_png(pixels: &[u8], width: u32, height: u32) -> (r: Option<Vec<u8>>)
    requires
        width > 0,
        height > 0,
        pixels@.len() == width * height,
    ensures
        encoded_as(r, png_bytes(pixels@, width, height)),
{
    let mut out = Vec::new();
    png::PngEncoder::new(&mut out).write_image(pixels, width, height, ColorType::L8).ok()?;
    Some(out)
}

/// The bytes that image's jpeg encoder writes for an 8-bit grayscale raster, or
/// `None` where it refuses it.
pub uninterp spec fn jpeg_bytes(samples: Seq<u8>, width: u32, height: u32) -> Option<Seq<u8>>;

/// Relies on image's `JpegEncoder::write_image (quality 75)` on an 8-bit grayscale raster (`ColorType::L8`)
/// into memory: its bytes depend on the raster alone.
#[verifier::external_body]
fn encode_jpeg(pixels: &[u8], width: u32, height: u32) -> (r: Option<Vec<u8>>)
    requires
        width > 0,
        height > 0,
        pixels@.len() == width * height,
    ensures
        encoded_as(r, jpeg_bytes(pixels@, width, height)),
{
    let mut out = Vec::new();
    jpeg::JpegEncoder::new(&mut out).write_image(pixels, width, height, ColorType::L8).ok()?;
    Some(out)
}

/// The bytes that image's gif encoder writes for an 8-bit RGB raster, or
/// `None` where it refuses it.
pub uninterp spec fn gif_bytes(samples: Seq<u8>, width: u32, height: u32) -> Option<Seq<u8>>;

/// Relies on image's `GifEncoder::encode` on an 8-bit RGB raster (`ColorType::Rgb8`)
/// into memory: its bytes depend on the raster alone.
#[verifier::external_body]
fn encode_gif(pixels: &[u8], width: u32, height: u32) -> (r: Option<Vec<u8>>)
    requires
        width > 0,
        height > 0,
        pixels@.len() == 3 * width * height,
    ensures
        encoded_as(r, gif_bytes(pixels@, width, height)),
{
    let mut out = Vec::new();
    gif::GifEncoder::new(&mut out).encode(pixels, width, height, ColorType::Rgb8).ok()?;
    Some(out)
}

/// The bytes that image's ico encoder writes for an 8-bit grayscale raster, or
/// `None` where it refuses it.
pub uninterp spec fn ico_bytes(samples: Seq<u8>, width: u32, height: u32) -> Option<Seq<u8>>;

/// Relies on image's `IcoEncoder::write_image` on an 8-bit grayscale raster (`ColorType::L8`)
/// into memory: its bytes depend on the raster alone.
#[verifier::external_body]
fn encode_ico(pixels: &[u8], width: u32, height: u32) -> (r: Option<Vec<u8>>)
    requires
        width > 0,
        height > 0,
        pixels@.len() == width * height,
    ensures
        encoded_as(r, ico_bytes(pixels@, width, height)),
{
    let mut out = Vec::new();
    ico::IcoEncoder::new(&mut out).write_image(pixels, width, height, ColorType::L8).ok()?;
    Some(out)
}

/// The bytes that image's tga encoder writes for an 8-bit grayscale raster, or
/// `None` where it refuses it.
pub uninterp spec fn tga_bytes(samples: Seq<u8>, width: u32, height: u32) -> Option<Seq<u8>>;

/// Relies on image's `TgaEncoder::write_image` on an 8-bit grayscale raster (`ColorType::L8`)
/// into memory: its bytes depend on the raster alone.
#[verifier::external_body]
fn encode_tga(pixels: &[u8], width: u32, height: u32) -> (r: Option<Vec<u8>>)
    requires
        width > 0,
        height > 0,
        pixels@.len() == width * height,
    ensures
        encoded_as(r, tga_bytes(pixels@, width, height)),
{
    let mut out = Vec::new();
    tga::TgaEncoder::new(&mut out).write_image(pixels, width, height, ColorType::L8).ok()?;
    Some(out)
}

/// The bytes that image's farbfeld encoder writes for an 16-bit RGBA raster, or
/// `None` where it refuses it.
pub uninterp spec fn farbfeld_bytes(samples: Seq<u8>, width: u32, height: u32) -> Option<Seq<u8>>;

/// Relies on image's `FarbfeldEncoder::write_image` on an 16-bit RGBA raster (`ColorType::Rgba16`)
/// into memory: its bytes depend on the raster alone.
#[verifier::external_body]
fn encode_farbfeld(pixels: &[u8], width: u32, height: u32) -> (r: Option<Vec<u8>>)
    requires
        width > 0,
        height > 0,
        pixels@.len() == 8 * width * height,
    ensures
        encoded_as(r, farbfeld_bytes(pixels@, width, height)),
{
    let mut out = Vec::new();
    farbfeld::FarbfeldEncoder::new(&mut out).write_image(pixels, width, height, ColorType::Rgba16).ok()?;
    Some(out)
}

/// A BMP file of an 8-bit grayscale raster (headers, palette and padded rows)
/// has a size that fits in `u32`; image's BMP encoder sums it unchecked.
pub open spec fn bmp_fits(width: u32, height: u32) -> bool {
    width * height + 3 * height + 1078 <= u32::MAX
}

/// The bytes that image's bmp encoder writes for an 8-bit grayscale raster,
/// or `None` where it refuses it.
pub uninterp spec fn bmp_bytes(samples: Seq<u8>, width: u32, height: u32) -> Option<Seq<u8>>;

/// Relies on image's `BmpEncoder::write_image` on an 8-bit grayscale raster
/// (`ColorType::L8`) into memory: its bytes depend on the raster alone.
#[verifier::external_body]
fn encode_bmp(pixels: &[u8], width: u32, height: u32) -> (r: Option<Vec<u8>>)
    requires
        width > 0,
        height > 0,
        bmp_fits(width, height),
        pixels@.len() == width * height,
    ensures
        encoded_as(r, bmp_bytes(pixels@, width, height)),
{
    let mut out = Vec::new();
    bmp::BmpEncoder::new(&mut out).write_image(pixels, width, height, ColorType::L8).ok()?;
    Some(out)
}

/// The bytes that image's TIFF encoder writes for an 8-bit grayscale raster,
/// or `None` where it refuses it.
pub uninterp spec fn tiff_bytes(samples: Seq<u8>, width: u32, height: u32) -> Option<Seq<u8>>;

/// Relies on image's `TiffEncoder::write_image` on an 8-bit grayscale raster
/// (`ColorType::L8`) into memory: its bytes depend on the raster alone.
#[verifier::external_body]
fn encode_tiff(pixels: &[u8], width: u32, height: u32) -> (r: Option<Vec<u8>>)
    requires
        width > 0,
        height > 0,
        pixels@.len() == width * height,
    ensures
        encoded_as(r, tiff_bytes(pixels@, width, height)),
{
    let mut out = std::io::Cursor::new(Vec::new());
    tiff::TiffEncoder::new(&mut out).write_image(pixels, width, height, ColorType::L8).ok()?;
    Some(out.into_inner())
}

/// The members of the PNM family.
#[derive(PartialEq, Eq, Structural, Clone, Copy, Debug)]
pub enum PnmKind {
    Bitmap,
    Graymap,
    Pixmap,
    ArbitraryMap,
}

/// Samples per pixel that each member is written from: RGB for the pixmap,
/// one otherwise.
pub open spec fn pnm_channels(kind: PnmKind) -> int {
    if kind == PnmKind::Pixmap {
        3
    } else {
        1
    }
}

/// The bytes that image's PNM encoder writes for a raster as the given
/// member (binary samples), or `None` where it refuses it.
pub uninterp spec fn pnm_bytes(samples: Seq<u8>, width: u32, height: u32, kind: PnmKind) -> Option<Seq<u8>>;

/// Relies on image's `PnmEncoder::with_subtype` and `write_image` into
/// memory, on 8-bit RGB samples (`ColorType::Rgb8`) for the pixmap and 8-bit
/// grayscale ones (`ColorType::L8`) otherwise; the arbitrary map is the
/// encoder's default header.
#[verifier::external_body]
fn encode_pnm(pixels: &[u8], width: u32, height: u32, kind: PnmKind) -> (r: Option<Vec<u8>>)
    requires
        width > 0,
        height > 0,
        pixels@.len() == pnm_channels(kind) * width * height,
    ensures
        encoded_as(r, pnm_bytes(pixels@, width, height, kind)),
{
    let mut out = Vec::new();
    let enc = pnm::PnmEncoder::new(&mut out);
    let (enc, color) = match kind {
        PnmKind::Bitmap => (enc.with_subtype(pnm::PNMSubtype::Bitmap(pnm::SampleEncoding::Binary)), ColorType::L8),
        PnmKind::Graymap => (enc.with_subtype(pnm::PNMSubtype::Graymap(pnm::SampleEncoding::Binary)), ColorType::L8),
        PnmKind::Pixmap => (enc.with_subtype(pnm::PNMSubtype::Pixmap(pnm::SampleEncoding::Binary)), ColorType::Rgb8),
        PnmKind::ArbitraryMap => (enc, ColorType::L8),
    };
    enc.write_image(pixels, width, height, color).ok()?;
    Some(out)
}

/// The encoder's answer: its bytes, or nothing where it refused.
pub open spec fn encoded_as(r: Option<Vec<u8>>, bytes: Option<Seq<u8>>) -> bool {
    match r {
        Some(b) => bytes == Some(b@),
        None => bytes is None,
    }
}

/// A grayscale raster as RGB: each pixel three times.
pub open spec fn rgb_of(pixels: Seq<u8>) -> Seq<u8>
    decreases pixels.len(),
{
    if pixels.len() == 0 {
        seq![]
    } else {
        let l = pixels.last();
        rgb_of(pixels.drop_last()) + seq![l, l, l]
    }
}

/// A grayscale raster as 16-bit RGBA: each grey level `g` becomes
/// `g * 257` (the bytes `g, g` in either byte order) in the three colour
/// channels, opaque alpha.
pub open spec fn rgba16_of(pixels: Seq<u8>) -> Seq<u8>
    decreases pixels.len(),
{
    if pixels.len() == 0 {
        seq![]
    } else {
        let l = pixels.last();
        rgba16_of(pixels.drop_last()) + seq![l, l, l, l, l, l, 255u8, 255u8]
    }
}

proof fn lemma_expanded_len(pixels: Seq<u8>)
    ensures
        rgb_of(pixels).len() == 3 * pixels.len(),
        rgba16_of(pixels).len() == 8 * pixels.len(),
    decreases pixels.len(),
{
    if pixels.len() > 0 {
        lemma_expanded_len(pixels.drop_last());
    }
}

/// The raster as 8-bit RGB.
pub fn to_rgb8(pixels: &[u8]) -> (r: Vec<u8>)
    ensures
        r@ == rgb_of(pixels@),
        r@.len() == 3 * pixels@.len(),
{
    let mut out: Vec<u8> = Vec::new();
    let mut i: usize = 0;
    while i < pixels.len()
        invariant
            i <= pixels@.len(),
            out@ == rgb_of(pixels@.take(i as int)),
        decreases pixels@.len() - i,
    {
        let g = pixels[i];
        out.push(g);
        out.push(g);
        out.push(g);
        assert(pixels@.take(i + 1).drop_last() =~= pixels@.take(i as int));
        i = i + 1;
    }
    assert(pixels@.take(i as int) =~= pixels@);
    proof {
        lemma_expanded_len(pixels@);
    }
    out
}

/// The raster as 16-bit RGBA.
pub fn to_rgba16(pixels: &[u8]) -> (r: Vec<u8>)
    ensures
        r@ == rgba16_of(pixels@),
        r@.len() == 8 * pixels@.len(),
{
    let mut out: Vec<u8> = Vec::new();
    let mut i: usize = 0;
    while i < pixels.len()
        invariant
            i <= pixels@.len(),
            out@ == rgba16_of(pixels@.take(i as int)),
        decreases pixels@.len() - i,
    {
        let g = pixels[i];
        out.push(g);
        out.push(g);
        out.push(g);
        out.push(g);
        out.push(g);
        out.push(g);
        out.push(255);
        out.push(255);
        assert(pixels@.take(i + 1).drop_last() =~= pixels@.take(i as int));
        i = i + 1;
    }
    assert(pixels@.take(i as int) =~= pixels@);
    proof {
        lemma_expanded_len(pixels@);
    }
    out
}

/// The bytes that `codec` writes for an 8-bit grayscale raster, converted
/// to the samples that its encoder takes, or `None` where the raster is
/// empty, too large for a BMP file, or refused by the encoder.
pub open spec fn codec_bytes(codec: Codec, pixels: Seq<u8>, width: u32, height: u32) -> Option<Seq<u8>> {
    if width == 0 || height == 0 {
        None
    } else {
        match codec {
            Codec::Gif => gif_bytes(rgb_of(pixels), width, height),
            Codec::Ico => ico_bytes(pixels, width, height),
            Codec::Jpeg => jpeg_bytes(pixels, width, height),
            Codec::Png => png_bytes(pixels, width, height),
            Codec::Pbm => pnm_bytes(pixels, width, height, PnmKind::Bitmap),
            Codec::Pgm => pnm_bytes(pixels, width, height, PnmKind::Graymap),
            Codec::Ppm => pnm_bytes(rgb_of(pixels), width, height, PnmKind::Pixmap),
            Codec::Pam => pnm_bytes(pixels, width, height, PnmKind::ArbitraryMap),
            Codec::Farbfeld => farbfeld_bytes(rgba16_of(pixels), width, height),
            Codec::Bmp => if bmp_fits(width, height) {
                bmp_bytes(pixels, width, height)
            } else {
                None
            },
            Codec::Tiff => tiff_bytes(pixels, width, height),
            Codec::Tga => tga_bytes(pixels, width, height),
        }
    }
}

fn bmp_size_fits(width: u32, height: u32) -> (r: bool)
    ensures
        r == bmp_fits(width, height),
{
    let w = width as u128;
    let h = height as u128;
    assert(w * h <= 0xFFFF_FFFF * 0xFFFF_FFFF) by (nonlinear_arith)
        requires
            w <= 0xFFFF_FFFF,
            h <= 0xFFFF_FFFF,
    ;
    w * h + 3 * h + 1078 <= 0xFFFF_FFFF
}

/// Encodes an 8-bit grayscale raster with the given encoder, converting it
/// first where the encoder takes other samples.
pub fn encode_buffer_with_format(codec: Codec, pixels: &[u8], width: u32, height: u32) -> (r: Option<Vec<u8>>)
    requires
        pixels@.len() == width * height,
    ensures
        encoded_as(r, codec_bytes(codec, pixels@, width, height)),
{
    if width == 0 || height == 0 {
        return None;
    }
    proof {
        assert(3 * pixels@.len() == 3 * width * height) by (nonlinear_arith)
            requires
                pixels@.len() == width * height,
        ;
        assert(8 * pixels@.len() == 8 * width * height) by (nonlinear_arith)
            requires
                pixels@.len() == width * height,
        ;
    }
    match codec {
        Codec::Gif => encode_gif(to_rgb8(pixels).as_slice(), width, height),
        Codec::Ico => encode_ico(pixels, width, height),
        Codec::Jpeg => encode_jpeg(pixels, width, height),
        Codec::Png => encode_png(pixels, width, height),
        Codec::Pbm => encode_pnm(pixels, width, height, PnmKind::Bitmap),
        Codec::Pgm => encode_pnm(pixels, width, height, PnmKind::Graymap),
        Codec::Ppm => encode_pnm(to_rgb8(pixels).as_slice(), width, height, PnmKind::Pixmap),
        Codec::Pam => encode_pnm(pixels, width, height, PnmKind::ArbitraryMap),
        Codec::Farbfeld => encode_farbfeld(to_rgba16(pixels).as_slice(), width, height),
        Codec::Bmp => if bmp_size_fits(width, height) {
            encode_bmp(pixels, width, height)
        } else {
            None
        },
        Codec::Tiff => encode_tiff(pixels, width, height),
        Codec::Tga => encode_tga(pixels, width, height),
    }
}

} // verus!
