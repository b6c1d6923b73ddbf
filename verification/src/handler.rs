//! Decisions of the HTTP handlers: which kind of upload request arrived,
//! which fields carry the image, and what a request is answered.

use vstd::prelude::*;

use crate::text::{
    ascii_lowercase, concat_strs, contains_lowered, lemma_contains_lowered_ignores_case,
    no_ascii_upper, str_contains_lowered, str_equals,
};

verus! {

/// The kinds of upload request, told apart by their `Content-Type`.
#[derive(Clone, Copy, Debug, PartialEq, Eq, Structural)]
pub enum RequestKind {
    Json,
    Multipart,
    Unsupported,
}

/// The kind of request that the `Content-Type` header `ct` announces, with
/// case ignored; a missing header reads as the empty text.
pub open spec fn request_kind(ct: Seq<char>) -> RequestKind {
    if contains_lowered(ct, "application/json"@) {
        RequestKind::Json
    } else if contains_lowered(ct, "multipart/form-data"@) {
        RequestKind::Multipart
    } else {
        RequestKind::Unsupported
    }
}

/// The kind of a request does not depend on the case of its content type.
pub proof fn lemma_request_kind_ignores_case(ct: Seq<char>)
    ensures
        request_kind(ct) == request_kind(ascii_lowercase(ct)),
{
    reveal_strlit("application/json");
    reveal_strlit("multipart/form-data");
    assert(no_ascii_upper("application/json"@));
    assert(no_ascii_upper("multipart/form-data"@));
    lemma_contains_lowered_ignores_case(ct, "application/json"@);
    lemma_contains_lowered_ignores_case(ct, "multipart/form-data"@);
}

/// The kind of request that `content_type` announces.
pub fn classify_content_type(content_type: &str) -> (k: RequestKind)
    ensures
        k == request_kind(content_type@),
{
    if str_contains_lowered(content_type, "application/json") {
        RequestKind::Json
    } else if str_contains_lowered(content_type, "multipart/form-data") {
        RequestKind::Multipart
    } else {
        RequestKind::Unsupported
    }
}

/// An HTTP answer: its status code and the `status` and `message` fields of
/// its JSON body.
#[derive(Clone, Debug)]
pub struct Reply {
    pub code: u16,
    pub status: String,
    pub message: String,
}

/// `r` is the answer with this code, status and message.
pub open spec fn reply_is(r: Reply, code: u16, status: Seq<char>, message: Seq<char>) -> bool {
    r.code == code && r.status@ == status && r.message@ == message
}

/// The shape of every answer to an upload request: `200` with status
/// `success`, or `400` or `500` with status `error`.
pub open spec fn well_formed_reply(r: Reply) -> bool {
    ||| (r.code == 200 && r.status@ == "success"@)
    ||| ((r.code == 400 || r.code == 500) && r.status@ == "error"@)
}

/// Every answer is `200`, `400` or `500`, its status is `success` or
/// `error`, and it is `200` exactly when its status is `success`.
pub proof fn lemma_reply_shape(r: Reply)
    requires
        well_formed_reply(r),
    ensures
        r.code == 200 || r.code == 400 || r.code == 500,
        r.status@ == "success"@ || r.status@ == "error"@,
        (r.code == 200) == (r.status@ == "success"@),
{
    reveal_strlit("success");
    reveal_strlit("error");
    assert("success"@[0] != "error"@[0]);
}

/// The answer `400 Bad Request` with `message`.
pub fn bad_request(message: String) -> (r: Reply)
    ensures
        well_formed_reply(r),
        reply_is(r, 400, "error"@, message@),
{
    Reply { code: 400, status: String::from_str("error"), message }
}

/// The answer to a JSON request whose body could not be read.
pub fn body_unreadable(detail: &str) -> (r: Reply)
    ensures
        well_formed_reply(r),
        reply_is(r, 400, "error"@, "Failed to read body: "@ + detail@),
{
    bad_request(concat_strs("Failed to read body: ", detail))
}

/// The answer to a JSON request whose body is not a valid payload.
pub fn json_invalid(detail: &str) -> (r: Reply)
    ensures
        well_formed_reply(r),
        reply_is(r, 400, "error"@, "Invalid JSON: "@ + detail@),
{
    bad_request(concat_strs("Invalid JSON: ", detail))
}

/// The answer to a multipart request that could not be parsed.
pub fn multipart_unreadable(detail: &str) -> (r: Reply)
    ensures
        well_formed_reply(r),
        reply_is(r, 400, "error"@, "Failed to parse multipart: "@ + detail@),
{
    bad_request(concat_strs("Failed to parse multipart: ", detail))
}

/// The answer to a request of any other content type.
pub fn unsupported_content_type() -> (r: Reply)
    ensures
        well_formed_reply(r),
        reply_is(
            r,
            400,
            "error"@,
            "Unsupported Content-Type. Use multipart/form-data or application/json"@,
        ),
{
    bad_request(String::from_str("Unsupported Content-Type. Use multipart/form-data or application/json"))
}

/// The answer once the upload has run: `200` on success, `500` with the
/// error text otherwise. On success the body also carries the saved record.
pub fn upload_reply(error: Option<String>) -> (r: Reply)
    ensures
        well_formed_reply(r),
        match error {
            None => reply_is(r, 200, "success"@, "Image uploaded successfully"@),
            Some(e) => reply_is(r, 500, "error"@, e@),
        },
{
    match error {
        None => Reply {
            code: 200,
            status: String::from_str("success"),
            message: String::from_str("Image uploaded successfully"),
        },
        Some(e) => Reply { code: 500, status: String::from_str("error"), message: e },
    }
}

/// What an upload is made from: file bytes, a Base64 text, a file name.
#[derive(Clone, Debug)]
pub struct UploadRequest {
    pub file_bytes: Option<Vec<u8>>,
    pub base64: Option<String>,
    pub filename: Option<String>,
}

/// The fields of a JSON upload body.
#[derive(Clone, Debug)]
pub struct UploadJsonPayload {
    pub image: Option<String>,
    pub base64: Option<String>,
    pub data: Option<String>,
    pub name: Option<String>,
    pub filename: Option<String>,
}

/// The first of two optional texts that is present.
pub open spec fn first_of(a: Option<String>, b: Option<String>) -> Option<String> {
    match a {
        Some(x) => Some(x),
        None => b,
    }
}

/// The upload that a JSON body asks for: the image from `image`, else
/// `base64`, else `data`; the file name from `name`, else `filename`. A body
/// with none of the three image fields is refused with `400`.
pub fn json_upload_request(payload: UploadJsonPayload) -> (r: Result<UploadRequest, Reply>)
    ensures
        r matches Err(reply) ==> well_formed_reply(reply),
        match r {
            Ok(req) => {
                &&& req.file_bytes is None
                &&& req.base64 == first_of(first_of(payload.image, payload.base64), payload.data)
                &&& req.base64 is Some
                &&& req.filename == first_of(payload.name, payload.filename)
            },
            Err(reply) => {
                &&& first_of(first_of(payload.image, payload.base64), payload.data) is None
                &&& reply_is(reply, 400, "error"@, "Field 'image' or 'base64' is required"@)
            },
        },
{
    let base64 = match payload.image {
        Some(x) => Some(x),
        None => match payload.base64 {
            Some(x) => Some(x),
            None => payload.data,
        },
    };
    let filename = match payload.name {
        Some(x) => Some(x),
        None => payload.filename,
    };
    if base64.is_none() {
        return Err(bad_request(String::from_str("Field 'image' or 'base64' is required")));
    }
    Ok(UploadRequest { file_bytes: None, base64, filename })
}

/// How the content of a multipart field is read.
#[derive(Clone, Copy, Debug, PartialEq, Eq, Structural)]
pub enum FieldRead {
    /// Read as bytes: an uploaded file.
    Bytes,
    /// Read as text.
    Text,
    /// Not read.
    Skip,
}

/// How a multipart field named `name`, with or without a file name, is read:
/// `image` and `file` are files when they carry a file name and Base64 text
/// otherwise; `name` and `filename` give the file name; `base64` is Base64
/// text; every other field is skipped.
pub open spec fn field_read(name: Seq<char>, has_file_name: bool) -> FieldRead {
    if name == "image"@ || name == "file"@ {
        if has_file_name {
            FieldRead::Bytes
        } else {
            FieldRead::Text
        }
    } else if name == "name"@ || name == "filename"@ || name == "base64"@ {
        FieldRead::Text
    } else {
        FieldRead::Skip
    }
}

/// How multipart fields are read, over every name: the file fields `image`
/// and `file` are read alike, as bytes when they carry a file name and as
/// Base64 text otherwise; `name`, `filename` and `base64` are text with or
/// without a file name; every other field is skipped.
pub proof fn lemma_field_read_rules(name: Seq<char>, has_file_name: bool)
    ensures
        field_read("image"@, has_file_name) == field_read("file"@, has_file_name),
        (name == "image"@ || name == "file"@) ==> field_read(name, has_file_name) == (if has_file_name {
            FieldRead::Bytes
        } else {
            FieldRead::Text
        }),
        (name == "name"@ || name == "filename"@ || name == "base64"@) ==> field_read(
            name,
            has_file_name,
        ) == FieldRead::Text,
        !(name == "image"@ || name == "file"@ || name == "name"@ || name == "filename"@ || name
            == "base64"@) ==> field_read(name, has_file_name) == FieldRead::Skip,
        field_read(name, true) == FieldRead::Bytes <==> (name == "image"@ || name == "file"@),
{
    reveal_strlit("image");
    reveal_strlit("file");
    reveal_strlit("name");
    reveal_strlit("filename");
    reveal_strlit("base64");
    assert("image"@ != "name"@ && "image"@ != "filename"@ && "image"@ != "base64"@) by {
        assert("image"@[0] != "name"@[0] && "image"@[0] != "filename"@[0]);
        assert("image"@[0] != "base64"@[0]);
    }
    assert("file"@ != "name"@ && "file"@ != "filename"@ && "file"@ != "base64"@) by {
        assert("file"@[1] != "name"@[1] && "file"@.len() != "filename"@.len());
        assert("file"@[0] != "base64"@[0]);
    }
}

/// How the multipart field `name` is read.
pub fn plan_field_read(name: &str, has_file_name: bool) -> (r: FieldRead)
    ensures
        r == field_read(name@, has_file_name),
{
    if str_equals(name, "image") || str_equals(name, "file") {
        if has_file_name {
            FieldRead::Bytes
        } else {
            FieldRead::Text
        }
    } else if str_equals(name, "name") || str_equals(name, "filename") || str_equals(
        name,
        "base64",
    ) {
        FieldRead::Text
    } else {
        FieldRead::Skip
    }
}

/// What was read from a multipart field; `None` where reading failed.
#[derive(Clone, Debug)]
pub enum FieldContent {
    Bytes(Option<Vec<u8>>),
    Text(Option<String>),
    Skipped,
}

/// `content` was read the way `plan` says.
pub open spec fn read_as_planned(plan: FieldRead, content: FieldContent) -> bool {
    match plan {
        FieldRead::Bytes => content is Bytes,
        FieldRead::Text => content is Text,
        FieldRead::Skip => content is Skipped,
    }
}

/// What the fields of a multipart body have given so far.
#[derive(Clone, Debug)]
pub struct MultipartForm {
    pub file_bytes: Option<Vec<u8>>,
    pub original_filename: Option<String>,
    pub form_base64: Option<String>,
}

impl MultipartForm {
    /// A form before any field.
    pub fn new() -> (f: MultipartForm)
        ensures
            f.file_bytes is None,
            f.original_filename is None,
            f.form_base64 is None,
    {
        MultipartForm { file_bytes: None, original_filename: None, form_base64: None }
    }

    /// Takes in the field `name`, whose file name is `file_name` and whose
    /// content was read as [`plan_field_read`] says. A file field sets the file
    /// name even where its bytes could not be read; a later field overrides an
    /// earlier one; content that could not be read changes nothing else.
    pub fn accept_field(&mut self, name: &str, file_name: Option<String>, content: FieldContent)
        requires
            read_as_planned(field_read(name@, file_name is Some), content),
        ensures
            match content {
                FieldContent::Bytes(bytes) => {
                    &&& final(self).original_filename == file_name
                    &&& final(self).file_bytes == (match bytes {
                        Some(b) => Some(b),
                        None => old(self).file_bytes,
                    })
                    &&& final(self).form_base64 == old(self).form_base64
                },
                FieldContent::Text(text) => {
                    &&& final(self).file_bytes == old(self).file_bytes
                    &&& if name@ == "name"@ || name@ == "filename"@ {
                        &&& final(self).original_filename == (match text {
                            Some(t) => Some(t),
                            None => old(self).original_filename,
                        })
                        &&& final(self).form_base64 == old(self).form_base64
                    } else {
                        &&& final(self).original_filename == old(self).original_filename
                        &&& final(self).form_base64 == (match text {
                            Some(t) => Some(t),
                            None => old(self).form_base64,
                        })
                    }
                },
                FieldContent::Skipped => *final(self) == *old(self),
            },
    {
        match content {
            FieldContent::Bytes(bytes) => {
                self.original_filename = file_name;
                match bytes {
                    Some(b) => {
                        self.file_bytes = Some(b);
                    },
                    None => {},
                }
            },
            FieldContent::Text(text) => {
                let names_file = str_equals(name, "name") || str_equals(name, "filename");
                match text {
                    Some(t) => {
                        if names_file {
                            self.original_filename = Some(t);
                        } else {
                            self.form_base64 = Some(t);
                        }
                    },
                    None => {},
                }
            },
            FieldContent::Skipped => {},
        }
    }

    /// The upload that the form asks for, or `400` where it holds neither a
    /// file nor Base64 text.
    pub fn into_request(self) -> (r: Result<UploadRequest, Reply>)
        ensures
            r matches Err(reply) ==> well_formed_reply(reply),
            match r {
                Ok(req) => {
                    &&& req.file_bytes == self.file_bytes
                    &&& req.base64 == self.form_base64
                    &&& req.filename == self.original_filename
                    &&& (self.file_bytes is Some || self.form_base64 is Some)
                },
                Err(reply) => {
                    &&& self.file_bytes is None
                    &&& self.form_base64 is None
                    &&& reply_is(
                        reply,
                        400,
                        "error"@,
                        "No image file or base64 data found in multipart request"@,
                    )
                },
            },
    {
        if self.file_bytes.is_none() && self.form_base64.is_none() {
            return Err(
                bad_request(
                    String::from_str("No image file or base64 data found in multipart request"),
                ),
            );
        }
        Ok(
            UploadRequest {
                file_bytes: self.file_bytes,
                base64: self.form_base64,
                filename: self.original_filename,
            },
        )
    }
}

/// The answer to a health check: the HTTP code, the `database` field and the
/// `status` field.
pub fn health_status(is_healthy: bool) -> (r: (u16, &'static str, &'static str))
    ensures
        is_healthy ==> r.0 == 200 && r.1@ == "connected"@ && r.2@ == "ok"@,
        !is_healthy ==> r.0 == 503 && r.1@ == "disconnected"@ && r.2@ == "unhealthy"@,
{
    if is_healthy {
        (200, "connected", "ok")
    } else {
        (503, "disconnected", "unhealthy")
    }
}

} // verus!
