use crate::codec::chars_of;
use crate::render::{
    ascii_lines, concat_rows, join_lines, pixel_rows, render_ascii, render_pixels, render_unicode, side,
    unicode_lines, GrayImage,
};
use crate::svg::{render_svg, svg_document};
use crate::symbol::{encode_symbol, ALWAYS_ENCODABLE, payload_bytes, qr_symbol_m, SymbolView};
use vstd::prelude::*;

verus! {

/// What a request asks to be rendered as.
#[derive(PartialEq, Eq, Structural, Clone, Copy, Debug)]
pub enum OutputKind {
    Ascii,
    Unicode,
    Image,
    Svg,
}

/// Why a request could not be carried out.
#[derive(PartialEq, Eq, Structural, Clone, Copy, Debug)]
pub enum ErrorKind {
    /// The payload is missing or the output kind is not known.
    InvalidArguments,
    /// The payload does not fit in any QR version at level M.
    EncodingFailed,
    /// A raster was asked for without a file to hold it.
    UnsupportedOutput,
    /// The file's extension names no format that a raster can be written in.
    UnsupportedFormat,
    /// The file could not be written.
    IOError,
}

/// One request: what to encode, how to render it and where to put it.
pub struct OutputRequest {
    pub payload: String,
    pub kind: OutputKind,
    pub quiet_zone: bool,
    pub destination: Option<String>,
}

/// The output kind that a command name selects.
pub open spec fn kind_named(name: Seq<char>) -> Option<OutputKind> {
    if name == seq!['a', 's', 'c', 'i', 'i'] {
        Some(OutputKind::Ascii)
    } else if name == seq!['u', 'n', 'i', 'c', 'o', 'd', 'e'] {
        Some(OutputKind::Unicode)
    } else if name == seq!['i', 'm', 'a', 'g', 'e'] {
        Some(OutputKind::Image)
    } else if name == seq!['s', 'v', 'g'] {
        Some(OutputKind::Svg)
    } else {
        None
    }
}

fn chars_equal(a: &Vec<char>, b: &Vec<char>) -> (r: bool)
    ensures
        r == (a@ == b@),
{
    if a.len() != b.len() {
        return false;
    }
    let mut i: usize = 0;
    while i < a.len()
        invariant
            a@.len() == b@.len(),
            i <= a@.len(),
            forall|j: int| 0 <= j < i ==> a@[j] == b@[j],
        decreases a@.len() - i,
    {
        if a[i] != b[i] {
            return false;
        }
        i = i + 1;
    }
    assert(a@ =~= b@);
    true
}

impl OutputKind {
    /// The output kind named `ascii`, `unicode`, `image` or `svg`.
    pub fn from_name(name: &str) -> (r: Option<OutputKind>)
        ensures
            r == kind_named(name@),
    {
        let n = chars_of(name);
        let ascii = vec!['a', 's', 'c', 'i', 'i'];
        let unicode = vec!['u', 'n', 'i', 'c', 'o', 'd', 'e'];
        let image = vec!['i', 'm', 'a', 'g', 'e'];
        let svg = vec!['s', 'v', 'g'];
        assert(ascii@ == seq!['a', 's', 'c', 'i', 'i']);
        assert(unicode@ == seq!['u', 'n', 'i', 'c', 'o', 'd', 'e']);
        assert(image@ == seq!['i', 'm', 'a', 'g', 'e']);
        assert(svg@ == seq!['s', 'v', 'g']);
        if chars_equal(&n, &ascii) {
            Some(OutputKind::Ascii)
        } else if chars_equal(&n, &unicode) {
            Some(OutputKind::Unicode)
        } else if chars_equal(&n, &image) {
            Some(OutputKind::Image)
        } else if chars_equal(&n, &svg) {
            Some(OutputKind::Svg)
        } else {
            None
        }
    }
}

/// Builds a request from the command's parts: the name of the output kind,
/// the payload, the quiet-zone flag and the file to write, if any.
pub fn resolve_request(kind_name: &str, payload: Option<String>, quiet_zone: bool, destination: Option<String>) -> (r:
    Result<OutputRequest, ErrorKind>)
    ensures
        (kind_named(kind_name@) is None || payload is None) ==> r == Err::<OutputRequest, ErrorKind>(
            ErrorKind::InvalidArguments,
        ),
        (kind_named(kind_name@) is Some && payload is Some) ==> r == Ok::<OutputRequest, ErrorKind>(
            (OutputRequest {
                payload: payload->Some_0,
                kind: kind_named(kind_name@)->Some_0,
                quiet_zone,
                destination,
            }),
        ),
{
    match (OutputKind::from_name(kind_name), payload) {
        (Some(kind), Some(payload)) => Ok(OutputRequest { payload, kind, quiet_zone, destination }),
        _ => Err(ErrorKind::InvalidArguments),
    }
}

/// A rendered symbol: text, or a grayscale raster.
pub enum Rendered {
    Text(String),
    Pixels(GrayImage),
}

/// The text that a textual kind renders a symbol to.
pub open spec fn text_of(kind: OutputKind, s: SymbolView, quiet_zone: bool) -> Seq<char> {
    match kind {
        OutputKind::Ascii => join_lines(ascii_lines(s, quiet_zone)),
        OutputKind::Unicode => join_lines(unicode_lines(s, quiet_zone)),
        OutputKind::Svg => svg_document(s, quiet_zone),
        OutputKind::Image => seq![],
    }
}

/// `r` is the rendering of `s` as `kind`: a raster for `Image`, text for the
/// others.
pub open spec fn rendered_as(r: Rendered, kind: OutputKind, s: SymbolView, quiet_zone: bool) -> bool {
    match r {
        Rendered::Text(t) => kind != OutputKind::Image && t@ == text_of(kind, s, quiet_zone),
        Rendered::Pixels(g) => {
            &&& kind == OutputKind::Image
            &&& g.width == side(s, quiet_zone)
            &&& g.height == side(s, quiet_zone)
            &&& g.pixels@ == concat_rows(pixel_rows(s, quiet_zone))
            &&& g.pixels@.len() == g.width * g.height
        },
    }
}

/// Relies on `String: FromIterator<&char>`: the string of these characters.
#[verifier::external_body]
fn string_of(chars: &Vec<char>) -> (r: String)
    ensures
        r@ == chars@,
{
    chars.iter().collect()
}

/// Encodes the payload at level M and renders it as the request asks; a
/// payload of at most `ALWAYS_ENCODABLE` bytes always renders.
pub fn render_request(req: &OutputRequest) -> (r: Result<Rendered, ErrorKind>)
    ensures
        payload_bytes(req.payload@).len() <= ALWAYS_ENCODABLE ==> r is Ok,
        match qr_symbol_m(payload_bytes(req.payload@)) {
            None => r == Err::<Rendered, ErrorKind>(ErrorKind::EncodingFailed),
            Some(s) => r matches Ok(o) && rendered_as(o, req.kind, s, req.quiet_zone),
        },
{
    let sym = match encode_symbol(req.payload.as_str()) {
        Some(sym) => sym,
        None => return Err(ErrorKind::EncodingFailed),
    };
    match req.kind {
        OutputKind::Ascii => Ok(Rendered::Text(string_of(&render_ascii(&sym, req.quiet_zone)))),
        OutputKind::Unicode => Ok(Rendered::Text(string_of(&render_unicode(&sym, req.quiet_zone)))),
        OutputKind::Svg => Ok(Rendered::Text(string_of(&render_svg(&sym, req.quiet_zone)))),
        OutputKind::Image => Ok(Rendered::Pixels(render_pixels(&sym, req.quiet_zone))),
    }
}

} // verus!
