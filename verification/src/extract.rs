//! Taking the image out of an upload request: raw file bytes, or a Base64
//! text that may be wrapped in a `data:` URI.

use vstd::prelude::*;

use base64::Engine;

use crate::mime::{extension_for_mime, mime_to_extension};
use crate::text::{
    all_white_space, lemma_find_in_prefix, lemma_trim_ignores_surrounding_white,
    lemma_trim_solid_head, trim_end,
    before_char, before_char_exec, chars_of, concat_strs, find, find_exec, is_white_space,
    lemma_find_from_found, occurs_at_exec, remove_all, remove_all_exec, starts_with,
    string_of, string_of_range, trim, trim_chars,
};

verus! {

// ---------------------------------------------------------------------------
// Outside calls
// ---------------------------------------------------------------------------

/// `s` without its whitespace characters.
pub open spec fn without_white_space(s: Seq<char>) -> Seq<char>
    decreases s.len(),
{
    if s.len() == 0 {
        s
    } else if is_white_space(s[0]) {
        without_white_space(s.drop_first())
    } else {
        seq![s[0]] + without_white_space(s.drop_first())
    }
}

/// Removes the whitespace of `s` with `regex::Regex::new(r"\s+")` and
/// `Regex::replace_all(s, "")`. The regex crate documents `\s` as
/// `\p{White_Space}` (its table holds the characters of [`is_white_space`]),
/// and `replace_all` as replacing every non-overlapping match; each run of
/// whitespace is replaced by nothing. The pattern is valid, so `new` does not fail.
#[verifier::external_body]
fn remove_whitespace_runs(s: &str) -> (r: String)
    ensures
        r@ == without_white_space(s@),
{
    regex::Regex::new(r"\s+").unwrap().replace_all(s, "").to_string()
}

/// What `base64::engine::general_purpose::STANDARD.decode` gives for the
/// UTF-8 bytes of a text: the decoded bytes, or the `Display` text of its
/// `DecodeError`.
pub uninterp spec fn standard_base64_decode(input: Seq<char>) -> Result<Seq<u8>, Seq<char>>;

/// Decodes `input` with the standard Base64 engine of the `base64` crate
/// (`BASE64_STANDARD.decode`). The contract says only that the outcome is the
/// one named by [`standard_base64_decode`] for this input; the alphabet, the
/// padding rules and the error texts are the crate's and are not restated.
#[verifier::external_body]
fn decode_standard_base64(input: &str) -> (r: Result<Vec<u8>, String>)
    ensures
        match r {
            Ok(bytes) => standard_base64_decode(input@) == Ok::<Seq<u8>, Seq<char>>(bytes@),
            Err(msg) => standard_base64_decode(input@) == Err::<Seq<u8>, Seq<char>>(msg@),
        },
{
    match base64::prelude::BASE64_STANDARD.decode(input) {
        Ok(bytes) => Ok(bytes),
        Err(e) => Err(e.to_string()),
    }
}

/// What `mime_guess::from_path(path).first()` gives, as text: the first MIME
/// type that `mime_guess` associates with the extension of `path`.
pub uninterp spec fn guessed_mime_type(path: Seq<char>) -> Option<Seq<char>>;

/// Guesses a MIME type from the extension of `path` with
/// `mime_guess::from_path(path).first()`, written out with `to_string`.
/// The contract says only that the outcome is the one named by
/// [`guessed_mime_type`]; the crate's table of extensions is not restated.
#[verifier::external_body]
fn guess_mime_type(path: &str) -> (r: Option<String>)
    ensures
        match r {
            Some(m) => guessed_mime_type(path@) == Some(m@),
            None => guessed_mime_type(path@) is None,
        },
{
    match mime_guess::from_path(path).first() {
        Some(m) => Some(m.to_string()),
        None => None,
    }
}

// ---------------------------------------------------------------------------
// Data URIs
// ---------------------------------------------------------------------------

/// The MIME type (where the text names one) and the Base64 payload of an
/// uploaded text, which may be `data:<mime>;base64,<payload>` or
/// `data:<mime>,<payload>` or bare Base64. The text is trimmed first.
pub open spec fn data_uri_parts(s: Seq<char>) -> (Option<Seq<char>>, Seq<char>) {
    let t = trim(s);
    match find(t, ";base64,"@) {
        Some(i) => {
            let meta = t.take(i);
            (
                if starts_with(meta, "data:"@) {
                    Some(remove_all(meta, "data:"@))
                } else {
                    None
                },
                t.skip(i + ";base64,"@.len()),
            )
        },
        None => if starts_with(t, "data:"@) {
            match find(t, seq![',']) {
                Some(i) => (Some(before_char(remove_all(t.take(i), "data:"@), ';')), t.skip(i + 1)),
                None => (None, t),
            }
        } else {
            (None, t)
        },
    }
}

/// The MIME type (if named) and the Base64 payload of the uploaded text `b64`.
pub fn split_data_uri(b64: &str) -> (r: (Option<String>, String))
    ensures
        (match r.0 {
            Some(m) => Some(m@),
            None => None::<Seq<char>>,
        }, r.1@) == data_uri_parts(b64@),
{
    let t = trim_chars(b64);
    let marker = chars_of(";base64,");
    let data = chars_of("data:");
    proof {
        assert(data@.len() > 0) by {
            reveal_strlit("data:");
        }
    }
    match find_exec(t.as_slice(), marker.as_slice()) {
        Some(i) => {
            proof {
                lemma_find_from_found(t@, marker@, 0);
            }
            let len = t.len();
            let payload = string_of_range(t.as_slice(), i + marker.len(), len);
            assert(t@.subrange(i + marker@.len(), len as int) =~= t@.skip(i + marker@.len()));
            let meta = slice_prefix(t.as_slice(), i);
            if occurs_at_exec(meta.as_slice(), data.as_slice(), 0) {
                let m = remove_all_exec(meta.as_slice(), data.as_slice());
                (Some(string_of(m.as_slice())), payload)
            } else {
                (None, payload)
            }
        },
        None => {
            if occurs_at_exec(t.as_slice(), data.as_slice(), 0) {
                let comma = vec![','];
                assert(comma@ =~= seq![',']);
                match find_exec(t.as_slice(), comma.as_slice()) {
                    Some(i) => {
                        proof {
                            lemma_find_from_found(t@, seq![','], 0);
                        }
                        let len = t.len();
                        let payload = string_of_range(t.as_slice(), i + 1, len);
                        assert(t@.subrange(i + 1, len as int) =~= t@.skip(i + 1));
                        let meta = slice_prefix(t.as_slice(), i);
                        let m = remove_all_exec(meta.as_slice(), data.as_slice());
                        let m = before_char_exec(m.as_slice(), ';');
                        (Some(string_of(m.as_slice())), payload)
                    },
                    None => (None, string_of(t.as_slice())),
                }
            } else {
                (None, string_of(t.as_slice()))
            }
        },
    }
}

/// The first `n` characters of `v`.
fn slice_prefix(v: &[char], n: usize) -> (r: Vec<char>)
    requires
        n <= v@.len(),
    ensures
        r@ == v@.take(n as int),
{
    let mut r: Vec<char> = Vec::new();
    let mut i: usize = 0;
    while i < n
        invariant
            n <= v@.len(),
            i <= n,
            r@ == v@.take(i as int),
        decreases n - i,
    {
        r.push(v[i]);
        i = i + 1;
        assert(r@ =~= v@.take(i as int));
    }
    r
}

// ---------------------------------------------------------------------------
// Extraction
// ---------------------------------------------------------------------------

/// The bytes, file name and MIME type of an extracted image, or an error text.
pub open spec fn extraction_view(r: Result<(Vec<u8>, String, String), String>) -> Result<
    (Seq<u8>, Seq<char>, Seq<char>),
    Seq<char>,
> {
    match r {
        Ok((d, f, m)) => Ok((d@, f@, m@)),
        Err(e) => Err(e@),
    }
}

/// Refuses an image without content.
pub open spec fn non_empty_image(data: Seq<u8>, filename: Seq<char>, mime: Seq<char>) -> Result<
    (Seq<u8>, Seq<char>, Seq<char>),
    Seq<char>,
> {
    if data.len() == 0 {
        Err("No image content provided"@)
    } else {
        Ok((data, filename, mime))
    }
}

/// The outcome once a Base64 text has been decoded into `decoded`: a decoding
/// error is reported; an empty file name becomes `image` and the extension of
/// the MIME type.
pub open spec fn base64_extraction(
    decoded: Result<Seq<u8>, Seq<char>>,
    filename: Seq<char>,
    mime: Seq<char>,
) -> Result<(Seq<u8>, Seq<char>, Seq<char>), Seq<char>> {
    match decoded {
        Err(e) => Err("Invalid base64 encoding: "@ + e),
        Ok(data) => non_empty_image(
            data,
            if filename.len() == 0 {
                "image"@ + extension_for_mime(mime)
            } else {
                filename
            },
            mime,
        ),
    }
}

/// The name given to an uploaded file: `image.jpg` where none was given.
pub open spec fn file_upload_name(filename: Seq<char>) -> Seq<char> {
    if filename.len() == 0 {
        "image.jpg"@
    } else {
        filename
    }
}

/// The outcome for uploaded file bytes once a MIME type has been guessed
/// (`guessed`) from the file name; without a guess the type is `image/jpeg`.
pub open spec fn file_extraction(
    bytes: Seq<u8>,
    filename: Seq<char>,
    guessed: Option<Seq<char>>,
) -> Result<(Seq<u8>, Seq<char>, Seq<char>), Seq<char>> {
    non_empty_image(
        bytes,
        filename,
        match guessed {
            Some(m) => m,
            None => "image/jpeg"@,
        },
    )
}

/// What `extract_image_data` gives: a Base64 text takes precedence over file
/// bytes; with neither there is no content.
pub open spec fn extraction(
    file_bytes: Option<Seq<u8>>,
    base64_str: Option<Seq<char>>,
    original_filename: Option<Seq<char>>,
) -> Result<(Seq<u8>, Seq<char>, Seq<char>), Seq<char>> {
    let filename = match original_filename {
        Some(f) => f,
        None => Seq::<char>::empty(),
    };
    match base64_str {
        Some(b64) => {
            let (m, payload) = data_uri_parts(b64);
            let mime = match m {
                Some(x) => x,
                None => "image/jpeg"@,
            };
            base64_extraction(standard_base64_decode(without_white_space(payload)), filename, mime)
        },
        None => match file_bytes {
            Some(bytes) => file_extraction(
                bytes,
                file_upload_name(filename),
                guessed_mime_type(file_upload_name(filename)),
            ),
            None => Err("No image content provided"@),
        },
    }
}

/// The bytes of an optional byte vector.
pub open spec fn opt_bytes(v: Option<Vec<u8>>) -> Option<Seq<u8>> {
    match v {
        Some(b) => Some(b@),
        None => None,
    }
}

/// The characters of an optional string.
pub open spec fn opt_text(v: Option<String>) -> Option<Seq<char>> {
    match v {
        Some(s) => Some(s@),
        None => None,
    }
}

fn checked_image(data: Vec<u8>, filename: String, mime_type: String) -> (r: Result<
    (Vec<u8>, String, String),
    String,
>)
    ensures
        extraction_view(r) == non_empty_image(data@, filename@, mime_type@),
{
    if data.len() == 0 {
        return Err(String::from_str("No image content provided"));
    }
    Ok((data, filename, mime_type))
}

/// Finishes a Base64 upload once its payload has been decoded into `decoded`.
pub fn finish_base64_extraction(
    decoded: Result<Vec<u8>, String>,
    filename: String,
    mime_type: String,
) -> (r: Result<(Vec<u8>, String, String), String>)
    ensures
        extraction_view(r) == base64_extraction(
            match decoded {
                Ok(b) => Ok(b@),
                Err(e) => Err(e@),
            },
            filename@,
            mime_type@,
        ),
{
    match decoded {
        Err(e) => Err(concat_strs("Invalid base64 encoding: ", e.as_str())),
        Ok(data) => {
            let name = if filename.as_str().is_empty() {
                concat_strs("image", mime_to_extension(mime_type.as_str()))
            } else {
                filename
            };
            checked_image(data, name, mime_type)
        },
    }
}

/// Finishes a file upload once a MIME type has been guessed (`guessed`) from
/// its file name.
pub fn finish_file_extraction(bytes: Vec<u8>, filename: String, guessed: Option<String>) -> (r:
    Result<(Vec<u8>, String, String), String>)
    ensures
        extraction_view(r) == file_extraction(bytes@, filename@, opt_text(guessed)),
{
    let mime_type = match guessed {
        Some(m) => m,
        None => String::from_str("image/jpeg"),
    };
    checked_image(bytes, filename, mime_type)
}

/// The image of an upload request: the decoded Base64 text where one is
/// given, else the file bytes; with the file name and the MIME type.
pub fn extract_image_data(
    file_bytes: Option<Vec<u8>>,
    base64_str: Option<String>,
    original_filename: Option<String>,
) -> (r: Result<(Vec<u8>, String, String), String>)
    ensures
        extraction_view(r) == extraction(
            opt_bytes(file_bytes),
            opt_text(base64_str),
            opt_text(original_filename),
        ),
{
    let filename = match original_filename {
        Some(f) => f,
        None => String::new(),
    };
    match base64_str {
        Some(b64) => {
            let (m, payload) = split_data_uri(b64.as_str());
            let mime_type = match m {
                Some(x) => x,
                None => String::from_str("image/jpeg"),
            };
            let clean = remove_whitespace_runs(payload.as_str());
            let decoded = decode_standard_base64(clean.as_str());
            finish_base64_extraction(decoded, filename, mime_type)
        },
        None => match file_bytes {
            Some(bytes) => {
                let name = if filename.as_str().is_empty() {
                    String::from_str("image.jpg")
                } else {
                    filename
                };
                let guessed = guess_mime_type(name.as_str());
                finish_file_extraction(bytes, name, guessed)
            },
            None => Err(String::from_str("No image content provided")),
        },
    }
}

// ---------------------------------------------------------------------------
// Laws
// ---------------------------------------------------------------------------

/// An extracted image is never empty, and never without a file name.
pub proof fn lemma_extraction_has_content(
    file_bytes: Option<Seq<u8>>,
    base64_str: Option<Seq<char>>,
    original_filename: Option<Seq<char>>,
)
    ensures
        extraction(file_bytes, base64_str, original_filename) matches Ok((data, name, mime)) ==> {
            &&& data.len() > 0
            &&& name.len() > 0
        },
{
    reveal_strlit("image");
    reveal_strlit("image.jpg");
}

/// A Base64 text takes precedence: file bytes given beside it are ignored.
pub proof fn lemma_base64_takes_precedence(
    file_bytes: Option<Seq<u8>>,
    base64_str: Seq<char>,
    original_filename: Option<Seq<char>>,
)
    ensures
        extraction(file_bytes, Some(base64_str), original_filename) == extraction(
            None,
            Some(base64_str),
            original_filename,
        ),
{
}

/// Removing whitespace from two texts one after the other.
proof fn lemma_without_white_space_concat(x: Seq<char>, y: Seq<char>)
    ensures
        without_white_space(x + y) == without_white_space(x) + without_white_space(y),
    decreases x.len(),
{
    if x.len() == 0 {
        assert(x + y =~= y);
        assert(without_white_space(x) + without_white_space(y) =~= without_white_space(y));
    } else {
        assert((x + y)[0] == x[0]);
        assert((x + y).drop_first() =~= x.drop_first() + y);
        lemma_without_white_space_concat(x.drop_first(), y);
        if !is_white_space(x[0]) {
            assert(seq![x[0]] + (without_white_space(x.drop_first()) + without_white_space(y))
                =~= (seq![x[0]] + without_white_space(x.drop_first())) + without_white_space(y));
        }
    }
}

/// Trailing whitespace is whitespace that is removed anyway.
proof fn lemma_without_white_space_trim_end(p: Seq<char>)
    ensures
        without_white_space(trim_end(p)) == without_white_space(p),
    decreases p.len(),
{
    if p.len() > 0 && is_white_space(p.last()) {
        let d = p.drop_last();
        lemma_without_white_space_trim_end(d);
        assert(p =~= d + seq![p.last()]);
        lemma_without_white_space_concat(d, seq![p.last()]);
        let one = seq![p.last()];
        assert(one.len() == 1 && one[0] == p.last());
        assert(one.drop_first() =~= Seq::<char>::empty());
        assert(without_white_space(one) == without_white_space(one.drop_first()));
        assert(without_white_space(Seq::<char>::empty()) =~= Seq::<char>::empty());
        assert(without_white_space(d) + Seq::<char>::empty() =~= without_white_space(d));
    }
}

/// Whitespace around an uploaded text changes nothing in what is extracted.
pub proof fn lemma_surrounding_whitespace_ignored(
    file_bytes: Option<Seq<u8>>,
    w1: Seq<char>,
    text: Seq<char>,
    w2: Seq<char>,
    original_filename: Option<Seq<char>>,
)
    requires
        all_white_space(w1),
        all_white_space(w2),
    ensures
        extraction(file_bytes, Some(w1 + text + w2), original_filename) == extraction(
            file_bytes,
            Some(text),
            original_filename,
        ),
{
    lemma_trim_ignores_surrounding_white(w1, text, w2);
}

/// Whitespace inside the payload of a `data:...;base64,` text changes nothing
/// in what is extracted: for a header `h` that ends with its first
/// `;base64,` and begins and ends with non-whitespace, payloads that are the
/// same once whitespace is removed give the same image.
pub proof fn lemma_payload_whitespace_ignored(
    file_bytes: Option<Seq<u8>>,
    h: Seq<char>,
    p: Seq<char>,
    p2: Seq<char>,
    original_filename: Option<Seq<char>>,
)
    requires
        h.len() >= ";base64,"@.len(),
        h.len() > 0,
        !is_white_space(h[0]),
        !is_white_space(h.last()),
        find(h, ";base64,"@) == Some(h.len() - ";base64,"@.len()),
        without_white_space(p) == without_white_space(p2),
    ensures
        extraction(file_bytes, Some(h + p), original_filename) == extraction(
            file_bytes,
            Some(h + p2),
            original_filename,
        ),
{
    let m = ";base64,"@;
    let k = h.len() - m.len();
    lemma_trim_solid_head(h, p);
    lemma_trim_solid_head(h, p2);
    lemma_find_in_prefix(h, trim_end(p), m);
    lemma_find_in_prefix(h, trim_end(p2), m);
    let t = h + trim_end(p);
    let t2 = h + trim_end(p2);
    assert(t.take(k) =~= h.take(k));
    assert(t2.take(k) =~= h.take(k));
    assert(t.skip(k + m.len()) =~= trim_end(p));
    assert(t2.skip(k + m.len()) =~= trim_end(p2));
    lemma_without_white_space_trim_end(p);
    lemma_without_white_space_trim_end(p2);
    assert(data_uri_parts(h + p).0 == data_uri_parts(h + p2).0);
    assert(without_white_space(data_uri_parts(h + p).1) == without_white_space(
        data_uri_parts(h + p2).1,
    ));
}

/// Leading whitespace is whitespace that is removed anyway.
proof fn lemma_without_white_space_trim(p: Seq<char>)
    ensures
        without_white_space(trim(p)) == without_white_space(p),
{
    lemma_without_white_space_trim_start(p);
    lemma_without_white_space_trim_end(crate::text::trim_start(p));
}

proof fn lemma_without_white_space_trim_start(p: Seq<char>)
    ensures
        without_white_space(crate::text::trim_start(p)) == without_white_space(p),
    decreases p.len(),
{
    if p.len() > 0 && is_white_space(p[0]) {
        lemma_without_white_space_trim_start(p.drop_first());
    }
}

/// Whitespace inside a bare Base64 text changes nothing in what is extracted:
/// for texts that, once trimmed, neither start with `data:` nor hold
/// `;base64,`, texts that are the same once whitespace is removed give the
/// same image.
pub proof fn lemma_bare_whitespace_ignored(
    file_bytes: Option<Seq<u8>>,
    p: Seq<char>,
    p2: Seq<char>,
    original_filename: Option<Seq<char>>,
)
    requires
        !starts_with(trim(p), "data:"@),
        !starts_with(trim(p2), "data:"@),
        find(trim(p), ";base64,"@) is None,
        find(trim(p2), ";base64,"@) is None,
        without_white_space(p) == without_white_space(p2),
    ensures
        extraction(file_bytes, Some(p), original_filename) == extraction(
            file_bytes,
            Some(p2),
            original_filename,
        ),
{
    lemma_without_white_space_trim(p);
    lemma_without_white_space_trim(p2);
    assert(data_uri_parts(p) == (None::<Seq<char>>, trim(p)));
    assert(data_uri_parts(p2) == (None::<Seq<char>>, trim(p2)));
}

/// Whitespace inside the payload of a `data:<mime>,<payload>` text changes
/// nothing in what is extracted: for a header `h` that starts with `data:`
/// and ends with its first `,`, and texts whose trimmed form holds no
/// `;base64,`, payloads that are the same once whitespace is removed give the
/// same image.
pub proof fn lemma_comma_payload_whitespace_ignored(
    file_bytes: Option<Seq<u8>>,
    h: Seq<char>,
    p: Seq<char>,
    p2: Seq<char>,
    original_filename: Option<Seq<char>>,
)
    requires
        starts_with(h, "data:"@),
        h.len() > 0,
        find(h, seq![',']) == Some(h.len() - 1),
        find(trim(h + p), ";base64,"@) is None,
        find(trim(h + p2), ";base64,"@) is None,
        without_white_space(p) == without_white_space(p2),
    ensures
        extraction(file_bytes, Some(h + p), original_filename) == extraction(
            file_bytes,
            Some(h + p2),
            original_filename,
        ),
{
    let d = "data:"@;
    let k = h.len() - 1;
    reveal_strlit("data:");
    assert(h.subrange(0, d.len() as int)[0] == h[0]);
    assert(h[0] == 'd');
    lemma_find_from_found(h, seq![','], 0);
    assert(h.subrange(k, k + 1)[0] == h[k]);
    assert(h.last() == ',');
    lemma_trim_solid_head(h, p);
    lemma_trim_solid_head(h, p2);
    let t = h + trim_end(p);
    let t2 = h + trim_end(p2);
    assert(t.subrange(0, d.len() as int) =~= h.subrange(0, d.len() as int));
    assert(t2.subrange(0, d.len() as int) =~= h.subrange(0, d.len() as int));
    lemma_find_in_prefix(h, trim_end(p), seq![',']);
    lemma_find_in_prefix(h, trim_end(p2), seq![',']);
    assert(t.take(k) =~= h.take(k));
    assert(t2.take(k) =~= h.take(k));
    assert(t.skip(k + 1) =~= trim_end(p));
    assert(t2.skip(k + 1) =~= trim_end(p2));
    lemma_without_white_space_trim_end(p);
    lemma_without_white_space_trim_end(p2);
    assert(data_uri_parts(h + p).0 == data_uri_parts(h + p2).0);
    assert(without_white_space(data_uri_parts(h + p).1) == without_white_space(
        data_uri_parts(h + p2).1,
    ));
}

/// A non-empty file name given with the image is kept as it is.
pub proof fn lemma_given_name_kept(
    file_bytes: Option<Seq<u8>>,
    base64_str: Option<Seq<char>>,
    name: Seq<char>,
)
    requires
        name.len() > 0,
    ensures
        extraction(file_bytes, base64_str, Some(name)) matches Ok((_, kept, _)) ==> kept == name,
{
}

} // verus!
