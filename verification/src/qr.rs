use vstd::prelude::*;
use vstd::string::*;

use qrcode::render::svg;
use qrcode::QrCode;

verus! {

/// Why a QR code could not be generated.
#[derive(Debug, Clone, Copy, PartialEq, Eq, Structural)]
pub enum QrError {
    /// The data is too long to fit in any QR code version.
    DataTooLong,
    InvalidVersion,
    UnsupportedCharacterSet,
    InvalidEciDesignator,
    InvalidCharacter,
}

/// The SVG image that the `qrcode` crate renders for `data` (error
/// correction level M, the smallest version that fits), with or without the
/// quiet zone and with the given dark and light colors; or why it cannot.
pub uninterp spec fn qr_svg_image(
    data: Seq<u8>,
    quiet_zone: bool,
    dark: Seq<char>,
    light: Seq<char>,
) -> Result<Seq<char>, QrError>;

/// Markup that opens with the XML declaration and an `<svg` element and
/// ends by closing that element.
pub open spec fn is_svg_document(s: Seq<char>) -> bool {
    &&& "<?xml version=\"1.0\" standalone=\"yes\"?><svg xmlns=\"http://www.w3.org/2000/svg\""@.is_prefix_of(s)
    &&& "\"/></svg>"@.is_suffix_of(s)
}

/// Calls `qrcode::QrCode::new(data)` and renders the code with
/// `render::<svg::Color>()`, `quiet_zone`, `dark_color`, `light_color` and
/// `build`. Claimed, not proved: the outcome depends on the arguments alone
/// (it is `qr_svg_image` of them), and a rendered image is an SVG document
/// as `is_svg_document` describes (the crate's SVG canvas writes that header
/// first and that closing tag last). Nothing is stated about which inputs
/// are too long, nor about the drawing itself.
#[verifier::external_body]
fn render_qr_svg(data: &[u8], quiet_zone: bool, dark: &str, light: &str) -> (r: Result<
    String,
    QrError,
>)
    ensures
        match r {
            Ok(s) => {
                &&& qr_svg_image(data@, quiet_zone, dark@, light@) == Ok::<Seq<char>, QrError>(s@)
                &&& is_svg_document(s@)
            },
            Err(e) => qr_svg_image(data@, quiet_zone, dark@, light@) == Err::<Seq<char>, QrError>(e),
        },
{
    match QrCode::new(data) {
        Ok(code) => Ok(
            code.render::<svg::Color>().quiet_zone(quiet_zone).dark_color(svg::Color(dark)).light_color(
                svg::Color(light),
            ).build(),
        ),
        Err(qrcode::types::QrError::DataTooLong) => Err(QrError::DataTooLong),
        Err(qrcode::types::QrError::InvalidVersion) => Err(QrError::InvalidVersion),
        Err(qrcode::types::QrError::UnsupportedCharacterSet) => Err(QrError::UnsupportedCharacterSet),
        Err(qrcode::types::QrError::InvalidEciDesignator) => Err(QrError::InvalidEciDesignator),
        Err(qrcode::types::QrError::InvalidCharacter) => Err(QrError::InvalidCharacter),
    }
}

/// What `qr_svg(text)` gives: the QR code of the text's UTF-8 bytes, with the
/// standard quiet zone, dark modules `#111111` on a `#ffffff` background.
pub open spec fn spec_qr_svg(text: Seq<char>) -> Result<Seq<char>, QrError> {
    qr_svg_image(vstd::utf8::encode_utf8(text), true, "#111111"@, "#ffffff"@)
}

/// Render `text` as a QR code, as an SVG string the UI can drop inline.
/// The quiet zone is the standard border; scanners expect it.
pub fn qr_svg(text: &str) -> (r: Result<String, QrError>)
    ensures
        match r {
            Ok(s) => spec_qr_svg(text@) == Ok::<Seq<char>, QrError>(s@) && is_svg_document(s@),
            Err(e) => spec_qr_svg(text@) == Err::<Seq<char>, QrError>(e),
        },
        match r {
            Ok(s) => qr_svg_image(text.spec_bytes(), true, "#111111"@, "#ffffff"@) == Ok::<
                Seq<char>,
                QrError,
            >(s@),
            Err(e) => qr_svg_image(text.spec_bytes(), true, "#111111"@, "#ffffff"@) == Err::<
                Seq<char>,
                QrError,
            >(e),
        },
{
    render_qr_svg(text.as_bytes(), true, "#111111", "#ffffff")
}

/// The share QR code is drawn dark on light, as scanners expect: the text's
/// UTF-8 bytes, with the quiet zone, dark modules `#111111` on a `#ffffff`
/// background.
pub proof fn lemma_qr_dark_on_light(text: Seq<char>)
    ensures
        spec_qr_svg(text) == qr_svg_image(
            vstd::utf8::encode_utf8(text),
            true,
            "#111111"@,
            "#ffffff"@,
        ),
{
}

impl QrError {
    pub open spec fn spec_message(&self) -> Seq<char> {
        match self {
            QrError::DataTooLong => "data too long"@,
            QrError::InvalidVersion => "invalid version"@,
            QrError::UnsupportedCharacterSet => "unsupported character set"@,
            QrError::InvalidEciDesignator => "invalid ECI designator"@,
            QrError::InvalidCharacter => "invalid character"@,
        }
    }

    pub fn message(&self) -> (r: String)
        ensures
            r@ == self.spec_message(),
    {
        match self {
            QrError::DataTooLong => String::from_str("data too long"),
            QrError::InvalidVersion => String::from_str("invalid version"),
            QrError::UnsupportedCharacterSet => String::from_str("unsupported character set"),
            QrError::InvalidEciDesignator => String::from_str("invalid ECI designator"),
            QrError::InvalidCharacter => String::from_str("invalid character"),
        }
    }
}

} // verus!
