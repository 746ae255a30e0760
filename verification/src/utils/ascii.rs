//! Banners drawn with the standard FIGlet font.

use vstd::prelude::*;
use crate::errors::AsciiArtError;

verus! {

/// A FIGlet font of the `figlet-rs` crate.
#[verifier::external_type_specification]
#[verifier::external_body]
pub struct ExFIGfont(figlet_rs::FIGfont);

/// Calls `FIGfont::standard`, which parses the font that is built into the
/// crate. Nothing is claimed of the result.
#[verifier::external_body]
fn standard_font() -> (r: Result<figlet_rs::FIGfont, String>) {
    figlet_rs::FIGfont::standard()
}

/// Calls `FIGfont::convert` and, where it yields a figure, the figure's
/// `to_string`. The crate yields no figure for an empty text.
#[verifier::external_body]
fn draw(font: &figlet_rs::FIGfont, text: &str) -> (r: Option<String>)
    ensures
        text@.len() == 0 ==> r is None,
{
    match font.convert(text) {
        Some(figure) => Some(figure.to_string()),
        None => None,
    }
}

/// Loads the standard font.
pub fn load_standard_font() -> (r: Result<figlet_rs::FIGfont, AsciiArtError>)
    ensures
        r is Err ==> r->Err_0 == AsciiArtError::FontLoadError,
{
    font_of(standard_font())
}

/// What is returned for a font that was parsed, or could not be parsed:
/// the font itself, or a font load error in place of the diagnostic.
pub fn font_of(parsed: Result<figlet_rs::FIGfont, String>) -> (r: Result<
    figlet_rs::FIGfont,
    AsciiArtError,
>)
    ensures
        parsed is Ok ==> r == Ok::<figlet_rs::FIGfont, AsciiArtError>(parsed->Ok_0),
        parsed is Err ==> r == Err::<figlet_rs::FIGfont, AsciiArtError>(
            AsciiArtError::FontLoadError,
        ),
{
    match parsed {
        Ok(font) => Ok(font),
        Err(_) => Err(AsciiArtError::FontLoadError),
    }
}

/// What is returned for a text that was drawn, or could not be drawn.
pub fn art_of(drawn: Option<String>) -> (r: Result<String, AsciiArtError>)
    ensures
        drawn is Some ==> r == Ok::<String, AsciiArtError>(drawn->Some_0),
        drawn is None ==> r == Err::<String, AsciiArtError>(AsciiArtError::ConversionError),
{
    match drawn {
        Some(art) => Ok(art),
        None => Err(AsciiArtError::ConversionError),
    }
}

/// Draws the text as a banner in the standard font.
///
/// An empty text is refused before the font is loaded. Whether the font
/// loads and whether the text can be drawn is decided by the font crate.
pub fn generate_ascii_art(text: &str) -> (r: Result<String, AsciiArtError>)
    ensures
        text@.len() == 0 ==> r == Err::<String, AsciiArtError>(AsciiArtError::ConversionError),
{
    if text.is_empty() {
        return Err(AsciiArtError::ConversionError);
    }
    match load_standard_font() {
        Ok(font) => art_of(draw(&font, text)),
        Err(error) => Err(error),
    }
}

} // verus!
