use qrcode::{EcLevel, QrCode};
use vstd::prelude::*;

verus! {

/// The abstract content of a QR symbol: `width` modules per side, their
/// colours row by row (`true` is dark).
pub struct SymbolView {
    pub width: nat,
    pub dark: Seq<bool>,
}

/// The symbol that `qrcode` builds for `data` at error-correction level M, or
/// `None` where the data fits in no QR version.
pub uninterp spec fn qr_symbol_m(data: Seq<u8>) -> Option<SymbolView>;

/// A QR symbol without quiet zone.
pub struct QrSymbol {
    pub width: usize,
    pub dark: Vec<bool>,
}

impl View for QrSymbol {
    type V = SymbolView;

    open spec fn view(&self) -> SymbolView {
        SymbolView { width: self.width as nat, dark: self.dark@ }
    }
}

impl SymbolView {
    /// Versions 1 to 40 have 21 to 177 modules per side, four more per version.
    pub open spec fn wf(self) -> bool {
        &&& 21 <= self.width <= 177
        &&& (self.width - 17) % 4 == 0
        &&& self.dark.len() == self.width * self.width
    }

    /// The colour of the module at (`row`, `col`); outside the grid, light.
    pub open spec fn is_dark(self, row: int, col: int) -> bool {
        &&& 0 <= row < self.width
        &&& 0 <= col < self.width
        &&& self.dark[row * self.width + col]
    }
}

pub proof fn lemma_grid_index(w: int, row: int, col: int)
    requires
        0 <= row < w <= 183,
        0 <= col < w,
    ensures
        0 <= row * w + col < w * w <= 183 * 183,
{
    assert(0 <= row * w + col < w * w <= 183 * 183) by (nonlinear_arith)
        requires
            0 <= row < w <= 183,
            0 <= col < w,
    ;
}

impl QrSymbol {
    /// The colour of one module; `false` outside the grid.
    pub fn is_dark(&self, row: usize, col: usize) -> (r: bool)
        requires
            self@.wf(),
        ensures
            r == self@.is_dark(row as int, col as int),
    {
        if row < self.width && col < self.width {
            proof {
                lemma_grid_index(self.width as int, row as int, col as int);
            }
            self.dark[row * self.width + col]
        } else {
            false
        }
    }
}

/// Payloads of at most this many bytes always fit at level M: at version 40
/// no segment costs more than 28 bits per byte (a one-byte byte-mode segment:
/// 4 mode bits, 16 length bits, 8 data bits), segments are only merged where
/// that costs no more, and 600 * 28 bits stay within the 18672 data bits of
/// version 40 at level M.
pub const ALWAYS_ENCODABLE: usize = 600;

/// Relies on qrcode's `QrCode::with_error_correction_level` at `EcLevel::M`,
/// then `width` and `to_colors`: a normal QR code of version 1 to 40, its
/// modules row by row; an error only when the data exceeds what version 40
/// holds (`encode_auto` falls back to version 40 before failing).
#[verifier::external_body]
fn qr_encode_m(data: &[u8]) -> (r: Option<QrSymbol>)
    ensures
        r is None <==> qr_symbol_m(data@) is None,
        data@.len() <= ALWAYS_ENCODABLE ==> r is Some,
        r matches Some(s) ==> s@.wf() && qr_symbol_m(data@) == Some(s@),
{
    let code = QrCode::with_error_correction_level(data, EcLevel::M).ok()?;
    let dark = code.to_colors().into_iter().map(|c| c.select(true, false)).collect();
    Some(QrSymbol { width: code.width(), dark })
}

/// The bytes that a text payload is encoded from: its UTF-8 form.
pub open spec fn payload_bytes(payload: Seq<char>) -> Seq<u8> {
    vstd::utf8::encode_utf8(payload)
}

/// Builds the QR symbol of `payload` at error-correction level M; `None`
/// exactly when the payload is too long for every version, never for a
/// payload of at most `ALWAYS_ENCODABLE` bytes.
pub fn encode_symbol(payload: &str) -> (r: Option<QrSymbol>)
    ensures
        r is None <==> qr_symbol_m(payload_bytes(payload@)) is None,
        payload_bytes(payload@).len() <= ALWAYS_ENCODABLE ==> r is Some,
        r matches Some(s) ==> s@.wf() && qr_symbol_m(payload_bytes(payload@)) == Some(s@),
{
    qr_encode_m(payload.as_bytes())
}

} // verus!
