//! The join URL of a raffle and the QR code that carries it.

use vstd::prelude::*;
use vstd::string::StringExecFns;

verus! {

/// The join URL for raffle `id`.
pub open spec fn join_url_text(id: Seq<char>) -> Seq<char> {
    "https://flottery.shuttleapp.rs/join/"@ + id
}

/// Build the join URL for raffle `id`.
pub fn join_url(id: &str) -> (r: String)
    ensures
        r@ == join_url_text(id@),
{
    let mut s = "https://flottery.shuttleapp.rs/join/".to_owned();
    s.append(id);
    s
}

/// Why a QR code could not be produced; one case per failure of the
/// encoder.
#[derive(Clone, Copy, Debug, PartialEq, Eq, Structural)]
pub enum QrFailure {
    DataTooLong,
    InvalidVersion,
    UnsupportedCharacterSet,
    InvalidEciDesignator,
    InvalidCharacter,
}

/// The SVG document that encodes `data` as a QR code.
pub uninterp spec fn qr_svg_of(data: Seq<char>) -> Seq<char>;

/// Relies on qrcode::QrCode::new and the SVG renderer reached through
/// qrcode::render::Renderer::build: the rendered document is a function of
/// the encoded text alone, and each error of the encoder is carried over
/// variant by variant.
#[verifier::external_body]
fn render_qr_svg(data: &str) -> (r: Result<String, QrFailure>)
    ensures
        r matches Ok(svg) ==> svg@ == qr_svg_of(data@),
{
    match qrcode::QrCode::new(data) {
        Ok(code) => Ok(code.render::<qrcode::render::svg::Color>().build()),
        Err(qrcode::types::QrError::DataTooLong) => Err(QrFailure::DataTooLong),
        Err(qrcode::types::QrError::InvalidVersion) => Err(QrFailure::InvalidVersion),
        Err(qrcode::types::QrError::UnsupportedCharacterSet) => Err(
            QrFailure::UnsupportedCharacterSet,
        ),
        Err(qrcode::types::QrError::InvalidEciDesignator) => Err(QrFailure::InvalidEciDesignator),
        Err(qrcode::types::QrError::InvalidCharacter) => Err(QrFailure::InvalidCharacter),
    }
}

/// The QR code, as an SVG document, of the join URL for raffle `id`.
pub fn raffle_qr(id: &str) -> (r: Result<String, QrFailure>)
    ensures
        r matches Ok(svg) ==> svg@ == qr_svg_of(join_url_text(id@)),
{
    let url = join_url(id);
    render_qr_svg(url.as_str())
}

} // verus!
