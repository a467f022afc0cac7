use crate::codec::{codec_bytes, codec_from_extension, codec_of_extension, encode_buffer_with_format};
use crate::render::GrayImage;
use crate::request::{render_request, rendered_as, ErrorKind, OutputRequest, Rendered};
use crate::symbol::{payload_bytes, qr_symbol_m, ALWAYS_ENCODABLE};
use vstd::prelude::*;

verus! {

/// What is left to do with a rendering: print it, or write a file.
pub enum OutputAction {
    /// Print the text to standard output, followed by a newline.
    Print(String),
    /// Write the text, as it stands, to the file.
    WriteText { path: String, text: String },
    /// Write these encoded image bytes to the file.
    WriteBytes { path: String, bytes: Vec<u8> },
}

/// The extension of a file path: what follows the last dot of its last
/// component, where that dot is not its first character.
pub uninterp spec fn extension_of(path: Seq<char>) -> Option<Seq<char>>;

/// Relies on `std::path::Path::extension`: a path given as `&str` has an
/// extension that is valid UTF-8, and it depends on the path alone.
#[verifier::external_body]
fn path_extension(path: &str) -> (r: Option<String>)
    ensures
        match r {
            Some(e) => extension_of(path@) == Some(e@),
            None => extension_of(path@) is None,
        },
{
    std::path::Path::new(path).extension().and_then(|e| e.to_str()).map(|e| e.to_string())
}

impl GrayImage {
    /// The pixels fill the raster exactly.
    pub open spec fn wf(&self) -> bool {
        self.pixels@.len() == self.width * self.height
    }
}

/// The plan for `out`: text goes to standard output or to the file as it
/// stands; a raster needs a file, whose extension selects the encoder.
pub open spec fn planned(out: Rendered, destination: Option<String>, r: Result<OutputAction, ErrorKind>) -> bool {
    match (out, destination) {
        (Rendered::Text(t), None) => r == Ok::<OutputAction, ErrorKind>(OutputAction::Print(t)),
        (Rendered::Text(t), Some(path)) => r == Ok::<OutputAction, ErrorKind>(
            OutputAction::WriteText { path, text: t },
        ),
        (Rendered::Pixels(_), None) => r == Err::<OutputAction, ErrorKind>(ErrorKind::UnsupportedOutput),
        (Rendered::Pixels(g), Some(path)) => match extension_of(path@) {
            None => r == Err::<OutputAction, ErrorKind>(ErrorKind::UnsupportedFormat),
            Some(ext) => match codec_of_extension(ext) {
                None => r == Err::<OutputAction, ErrorKind>(ErrorKind::UnsupportedFormat),
                Some(codec) => match codec_bytes(codec, g.pixels@, g.width, g.height) {
                    None => r == Err::<OutputAction, ErrorKind>(ErrorKind::UnsupportedFormat),
                    Some(b) => r matches Ok(OutputAction::WriteBytes { path: p, bytes }) && p == path
                        && bytes@ == b,
                },
            },
        },
    }
}

/// Decides what to do with a rendering, given the file to write, if any.
pub fn plan_output(out: Rendered, destination: Option<String>) -> (r: Result<OutputAction, ErrorKind>)
    requires
        out matches Rendered::Pixels(g) ==> g.wf(),
    ensures
        planned(out, destination, r),
{
    match (out, destination) {
        (Rendered::Text(t), None) => Ok(OutputAction::Print(t)),
        (Rendered::Text(t), Some(path)) => Ok(OutputAction::WriteText { path, text: t }),
        (Rendered::Pixels(_), None) => Err(ErrorKind::UnsupportedOutput),
        (Rendered::Pixels(g), Some(path)) => {
            let ext = match path_extension(path.as_str()) {
                Some(e) => e,
                None => return Err(ErrorKind::UnsupportedFormat),
            };
            let codec = match codec_from_extension(ext.as_str()) {
                Some(c) => c,
                None => return Err(ErrorKind::UnsupportedFormat),
            };
            match encode_buffer_with_format(codec, g.pixels.as_slice(), g.width, g.height) {
                Some(bytes) => Ok(OutputAction::WriteBytes { path, bytes }),
                None => Err(ErrorKind::UnsupportedFormat),
            }
        },
    }
}

/// Carries out a request up to the output: encode, render, and decide what
/// to print or write.
pub fn generate(req: OutputRequest) -> (r: Result<OutputAction, ErrorKind>)
    ensures
        payload_bytes(req.payload@).len() <= ALWAYS_ENCODABLE ==> r != Err::<OutputAction, ErrorKind>(
            ErrorKind::EncodingFailed,
        ),
        match qr_symbol_m(payload_bytes(req.payload@)) {
            None => r == Err::<OutputAction, ErrorKind>(ErrorKind::EncodingFailed),
            Some(s) => exists|o: Rendered| rendered_as(o, req.kind, s, req.quiet_zone) && planned(o, req.destination, r),
        },
{
    let out = render_request(&req);
    match out {
        Err(e) => Err(e),
        Ok(o) => plan_output(o, req.destination),
    }
}

/// A raster with no file to hold it is refused as an unsupported output,
/// and one for a file whose extension is `xyz` as an unsupported format.
pub proof fn lemma_raster_destinations(
    g: GrayImage,
    path: String,
    to_stdout: Result<OutputAction, ErrorKind>,
    to_file: Result<OutputAction, ErrorKind>,
)
    requires
        planned(Rendered::Pixels(g), None, to_stdout),
        planned(Rendered::Pixels(g), Some(path), to_file),
        extension_of(path@) == Some(seq!['x', 'y', 'z']),
    ensures
        to_stdout == Err::<OutputAction, ErrorKind>(ErrorKind::UnsupportedOutput),
        to_file == Err::<OutputAction, ErrorKind>(ErrorKind::UnsupportedFormat),
{
}

} // verus!
