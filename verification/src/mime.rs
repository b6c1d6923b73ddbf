//! Mapping between MIME types, file extensions and output formats.

use vstd::prelude::*;

use crate::text::{
    ascii_lowercase, lemma_lowers_to_ignores_case, lowers_to, no_ascii_upper, str_lowers_to,
};

verus! {

/// The file extension, with its dot, that goes with the MIME type `m`;
/// the comparison ignores case, and an unknown type gets `.jpg`.
pub open spec fn extension_for_mime(m: Seq<char>) -> Seq<char> {
    if lowers_to(m, "image/jpeg"@) || lowers_to(m, "image/jpg"@) {
        ".jpg"@
    } else if lowers_to(m, "image/png"@) {
        ".png"@
    } else if lowers_to(m, "image/webp"@) {
        ".webp"@
    } else if lowers_to(m, "image/avif"@) {
        ".avif"@
    } else if lowers_to(m, "image/gif"@) {
        ".gif"@
    } else if lowers_to(m, "image/svg+xml"@) {
        ".svg"@
    } else {
        ".jpg"@
    }
}

/// The file extension, with its dot, for the MIME type `mime`.
pub fn mime_to_extension(mime: &str) -> (ext: &str)
    ensures
        ext@ == extension_for_mime(mime@),
{
    if str_lowers_to(mime, "image/jpeg") || str_lowers_to(mime, "image/jpg") {
        ".jpg"
    } else if str_lowers_to(mime, "image/png") {
        ".png"
    } else if str_lowers_to(mime, "image/webp") {
        ".webp"
    } else if str_lowers_to(mime, "image/avif") {
        ".avif"
    } else if str_lowers_to(mime, "image/gif") {
        ".gif"
    } else if str_lowers_to(mime, "image/svg+xml") {
        ".svg"
    } else {
        ".jpg"
    }
}

/// The output format that the optimizer is asked for.
#[derive(Clone, Copy, Debug, PartialEq, Eq, Structural)]
pub enum ImageFormat {
    Auto,
    Avif,
    Webp,
    Jpeg,
    Png,
}

/// The output format named by `s`, ignoring case; an unknown name asks for `Auto`.
pub open spec fn image_format_named(s: Seq<char>) -> ImageFormat {
    if lowers_to(s, "webp"@) {
        ImageFormat::Webp
    } else if lowers_to(s, "avif"@) {
        ImageFormat::Avif
    } else if lowers_to(s, "png"@) {
        ImageFormat::Png
    } else if lowers_to(s, "jpeg"@) || lowers_to(s, "jpg"@) {
        ImageFormat::Jpeg
    } else {
        ImageFormat::Auto
    }
}

/// The output format named by `format_str`.
pub fn string_to_image_format(format_str: &str) -> (f: ImageFormat)
    ensures
        f == image_format_named(format_str@),
{
    if str_lowers_to(format_str, "webp") {
        ImageFormat::Webp
    } else if str_lowers_to(format_str, "avif") {
        ImageFormat::Avif
    } else if str_lowers_to(format_str, "png") {
        ImageFormat::Png
    } else if str_lowers_to(format_str, "jpeg") || str_lowers_to(format_str, "jpg") {
        ImageFormat::Jpeg
    } else {
        ImageFormat::Auto
    }
}

/// The extension that goes with a MIME type does not depend on its case.
pub proof fn lemma_mime_extension_ignores_case(m: Seq<char>)
    ensures
        extension_for_mime(m) == extension_for_mime(ascii_lowercase(m)),
{
    reveal_strlit("image/jpeg");
    reveal_strlit("image/jpg");
    reveal_strlit("image/png");
    reveal_strlit("image/webp");
    reveal_strlit("image/avif");
    reveal_strlit("image/gif");
    reveal_strlit("image/svg+xml");
    assert(no_ascii_upper("image/jpeg"@));
    assert(no_ascii_upper("image/jpg"@));
    assert(no_ascii_upper("image/png"@));
    assert(no_ascii_upper("image/webp"@));
    assert(no_ascii_upper("image/avif"@));
    assert(no_ascii_upper("image/gif"@));
    assert(no_ascii_upper("image/svg+xml"@));
    lemma_lowers_to_ignores_case(m, "image/jpeg"@);
    lemma_lowers_to_ignores_case(m, "image/jpg"@);
    lemma_lowers_to_ignores_case(m, "image/png"@);
    lemma_lowers_to_ignores_case(m, "image/webp"@);
    lemma_lowers_to_ignores_case(m, "image/avif"@);
    lemma_lowers_to_ignores_case(m, "image/gif"@);
    lemma_lowers_to_ignores_case(m, "image/svg+xml"@);
}

/// The output format named by a text does not depend on its case.
pub proof fn lemma_format_ignores_case(s: Seq<char>)
    ensures
        image_format_named(s) == image_format_named(ascii_lowercase(s)),
{
    reveal_strlit("webp");
    reveal_strlit("avif");
    reveal_strlit("png");
    reveal_strlit("jpeg");
    reveal_strlit("jpg");
    assert(no_ascii_upper("webp"@));
    assert(no_ascii_upper("avif"@));
    assert(no_ascii_upper("png"@));
    assert(no_ascii_upper("jpeg"@));
    assert(no_ascii_upper("jpg"@));
    lemma_lowers_to_ignores_case(s, "webp"@);
    lemma_lowers_to_ignores_case(s, "avif"@);
    lemma_lowers_to_ignores_case(s, "png"@);
    lemma_lowers_to_ignores_case(s, "jpeg"@);
    lemma_lowers_to_ignores_case(s, "jpg"@);
}

} // verus!
