//! Recognising an image by its content rather than by its name.
use vstd::prelude::*;

verus! {

#[verifier::external_type_specification]
#[verifier::external_body]
pub struct ExImageFormat(image::ImageFormat);

/// Whether the `image` crate recognises `head` as the start of an image.
pub uninterp spec fn recognized_image(head: Seq<u8>) -> bool;

/// Relies on `image::guess_format`: it compares the leading bytes with the
/// signatures of the formats it knows, and fails when none matches.
#[verifier::external_body]
fn guess_format(bytes: &[u8]) -> (r: Option<image::ImageFormat>)
    ensures
        r is Some == recognized_image(bytes@),
{
    image::guess_format(bytes).ok()
}

/// What the leading bytes of a file say it is.
pub enum Sniffed {
    Image(image::ImageFormat),
    NotImage,
}

/// How many leading bytes of a file are enough to recognise its format.
pub const SNIFF_LEN: usize = 64;

/// Classifies a file from its leading bytes.
pub fn classify(head: &[u8]) -> (r: Sniffed)
    ensures
        r is Image <==> recognized_image(head@),
{
    match guess_format(head) {
        Some(format) => Sniffed::Image(format),
        None => Sniffed::NotImage,
    }
}

/// Whether the leading bytes `head` are those of an image.
pub fn is_image(head: &[u8]) -> (r: bool)
    ensures
        r == recognized_image(head@),
{
    match classify(head) {
        Sniffed::Image(_) => true,
        Sniffed::NotImage => false,
    }
}

} // verus!
