use smallpict_rust::handler::{
    body_unreadable, classify_content_type, health_status, json_invalid, json_upload_request,
    multipart_unreadable, plan_field_read, unsupported_content_type, upload_reply, FieldContent,
    FieldRead, MultipartForm, RequestKind, UploadJsonPayload,
};

fn s(x: &str) -> String {
    x.to_string()
}

#[test]
fn content_types() {
    assert_eq!(classify_content_type("application/json"), RequestKind::Json);
    assert_eq!(classify_content_type("Application/JSON; charset=utf-8"), RequestKind::Json);
    assert_eq!(classify_content_type("multipart/form-data; boundary=abc"), RequestKind::Multipart);
    assert_eq!(classify_content_type(""), RequestKind::Unsupported);
    assert_eq!(classify_content_type("text/plain"), RequestKind::Unsupported);
}

fn payload() -> UploadJsonPayload {
    UploadJsonPayload { image: None, base64: None, data: None, name: None, filename: None }
}

#[test]
fn json_field_precedence() {
    let mut p = payload();
    p.base64 = Some(s("B"));
    p.data = Some(s("D"));
    p.filename = Some(s("f.png"));
    let r = json_upload_request(p.clone()).unwrap();
    assert_eq!(r.base64, Some(s("B")));
    assert_eq!(r.filename, Some(s("f.png")));
    assert!(r.file_bytes.is_none());
    p.image = Some(s("I"));
    p.name = Some(s("n.png"));
    let r = json_upload_request(p).unwrap();
    assert_eq!(r.base64, Some(s("I")));
    assert_eq!(r.filename, Some(s("n.png")));
}

#[test]
fn json_without_image_is_refused() {
    let mut p = payload();
    p.name = Some(s("x.png"));
    let e = json_upload_request(p).unwrap_err();
    assert_eq!(e.code, 400);
    assert_eq!(e.status, "error");
    assert_eq!(e.message, "Field 'image' or 'base64' is required");
}

#[test]
fn refusals() {
    let r = body_unreadable("length limit exceeded");
    assert_eq!((r.code, r.message.as_str()), (400, "Failed to read body: length limit exceeded"));
    let r = json_invalid("EOF while parsing");
    assert_eq!((r.code, r.message.as_str()), (400, "Invalid JSON: EOF while parsing"));
    let r = multipart_unreadable("bad boundary");
    assert_eq!((r.code, r.message.as_str()), (400, "Failed to parse multipart: bad boundary"));
    let r = unsupported_content_type();
    assert_eq!(
        (r.code, r.status.as_str(), r.message.as_str()),
        (400, "error", "Unsupported Content-Type. Use multipart/form-data or application/json")
    );
}

#[test]
fn upload_replies() {
    let r = upload_reply(None);
    assert_eq!((r.code, r.status.as_str(), r.message.as_str()), (200, "success", "Image uploaded successfully"));
    let r = upload_reply(Some(s("Database insert error: x")));
    assert_eq!((r.code, r.status.as_str(), r.message.as_str()), (500, "error", "Database insert error: x"));
}

#[test]
fn multipart_fields() {
    assert_eq!(plan_field_read("image", true), FieldRead::Bytes);
    assert_eq!(plan_field_read("file", false), FieldRead::Text);
    assert_eq!(plan_field_read("name", false), FieldRead::Text);
    assert_eq!(plan_field_read("base64", true), FieldRead::Text);
    assert_eq!(plan_field_read("other", true), FieldRead::Skip);
    assert_eq!(plan_field_read("Image", true), FieldRead::Skip);

    let mut form = MultipartForm::new();
    form.accept_field("image", Some(s("a.png")), FieldContent::Bytes(Some(vec![1, 2])));
    form.accept_field("name", None, FieldContent::Text(Some(s("b.webp"))));
    form.accept_field("other", None, FieldContent::Skipped);
    let req = form.into_request().unwrap();
    assert_eq!(req.file_bytes, Some(vec![1, 2]));
    assert_eq!(req.filename, Some(s("b.webp")));
    assert_eq!(req.base64, None);
}

#[test]
fn multipart_file_name_kept_when_bytes_fail() {
    let mut form = MultipartForm::new();
    form.accept_field("file", Some(s("c.jpg")), FieldContent::Bytes(None));
    form.accept_field("base64", None, FieldContent::Text(Some(s("QQ=="))));
    let req = form.into_request().unwrap();
    assert_eq!(req.file_bytes, None);
    assert_eq!(req.filename, Some(s("c.jpg")));
    assert_eq!(req.base64, Some(s("QQ==")));
}

#[test]
fn multipart_without_image_is_refused() {
    let mut form = MultipartForm::new();
    form.accept_field("name", None, FieldContent::Text(Some(s("x.png"))));
    let e = form.into_request().unwrap_err();
    assert_eq!(e.code, 400);
    assert_eq!(e.message, "No image file or base64 data found in multipart request");
}

#[test]
fn health() {
    assert_eq!(health_status(true), (200, "connected", "ok"));
    assert_eq!(health_status(false), (503, "disconnected", "unhealthy"));
}

#[test]
fn content_type_case_does_not_matter() {
    for ct in ["APPLICATION/JSON", "Multipart/Form-Data; boundary=x", "TEXT/PLAIN"] {
        assert_eq!(classify_content_type(ct), classify_content_type(&ct.to_ascii_lowercase()));
    }
}

#[test]
fn every_reply_has_the_answer_shape() {
    let mut replies = vec![
        body_unreadable("x"),
        json_invalid("x"),
        multipart_unreadable("x"),
        unsupported_content_type(),
        upload_reply(None),
        upload_reply(Some(s("boom"))),
        json_upload_request(payload()).unwrap_err(),
    ];
    replies.push(MultipartForm::new().into_request().unwrap_err());
    for r in replies {
        assert!([200, 400, 500].contains(&r.code));
        assert!(r.status == "success" || r.status == "error");
        assert_eq!(r.code == 200, r.status == "success");
    }
}
