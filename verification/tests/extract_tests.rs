use smallpict_rust::extract::{
    extract_image_data, finish_base64_extraction, finish_file_extraction, split_data_uri,
};

fn s(x: &str) -> String {
    x.to_string()
}

#[test]
fn data_uri_with_base64_marker() {
    assert_eq!(
        split_data_uri("  data:image/png;base64,aGVsbG8=  "),
        (Some(s("image/png")), s("aGVsbG8="))
    );
    assert_eq!(split_data_uri("aGVsbG8="), (None, s("aGVsbG8=")));
    assert_eq!(split_data_uri("weird;base64,QQ=="), (None, s("QQ==")));
    assert_eq!(split_data_uri("data:image/gif;charset=x,QQ=="), (Some(s("image/gif")), s("QQ==")));
    assert_eq!(split_data_uri("data:nocomma"), (None, s("data:nocomma")));
}

#[test]
fn base64_image_decoded() {
    let r = extract_image_data(None, Some(s("data:image/png;base64,aGVs\nbG8=")), None).unwrap();
    assert_eq!(r, (b"hello".to_vec(), s("image.png"), s("image/png")));
}

#[test]
fn base64_without_uri_is_jpeg() {
    let r = extract_image_data(None, Some(s(" aGVs bG8= ")), Some(s("pic.gif"))).unwrap();
    assert_eq!(r, (b"hello".to_vec(), s("pic.gif"), s("image/jpeg")));
}

#[test]
fn unicode_whitespace_is_removed_before_decoding() {
    let r = extract_image_data(None, Some(s("aGVs\u{2003}bG\u{3000}8=")), Some(s("x"))).unwrap();
    assert_eq!(r.0, b"hello".to_vec());
}

#[test]
fn base64_takes_precedence_over_file() {
    let r = extract_image_data(Some(vec![1, 2, 3]), Some(s("QQ==")), None).unwrap();
    assert_eq!(r, (b"A".to_vec(), s("image.jpg"), s("image/jpeg")));
}

#[test]
fn invalid_base64_reported() {
    let e = extract_image_data(None, Some(s("not base64!")), None).unwrap_err();
    assert!(e.starts_with("Invalid base64 encoding: "), "{}", e);
}

#[test]
fn empty_base64_has_no_content() {
    let e = extract_image_data(None, Some(s("data:image/png;base64,")), None).unwrap_err();
    assert_eq!(e, "No image content provided");
}

#[test]
fn file_bytes_with_guessed_type() {
    let r = extract_image_data(Some(vec![9, 9]), None, Some(s("photo.PNG"))).unwrap();
    assert_eq!(r, (vec![9, 9], s("photo.PNG"), s("image/png")));
    let r = extract_image_data(Some(vec![9]), None, None).unwrap();
    assert_eq!(r, (vec![9], s("image.jpg"), s("image/jpeg")));
    let r = extract_image_data(Some(vec![9]), None, Some(s("blob"))).unwrap();
    assert_eq!(r, (vec![9], s("blob"), s("image/jpeg")));
}

#[test]
fn nothing_given_has_no_content() {
    assert_eq!(extract_image_data(None, None, Some(s("a.png"))).unwrap_err(), "No image content provided");
    assert_eq!(extract_image_data(Some(vec![]), None, None).unwrap_err(), "No image content provided");
}

#[test]
fn finishing_steps() {
    assert_eq!(
        finish_base64_extraction(Err(s("Invalid padding")), s(""), s("image/png")).unwrap_err(),
        "Invalid base64 encoding: Invalid padding"
    );
    assert_eq!(
        finish_base64_extraction(Ok(vec![1]), s(""), s("image/webp")).unwrap(),
        (vec![1], s("image.webp"), s("image/webp"))
    );
    assert_eq!(
        finish_file_extraction(vec![1], s("x.bin"), None).unwrap(),
        (vec![1], s("x.bin"), s("image/jpeg"))
    );
    assert_eq!(
        finish_file_extraction(vec![], s("x.bin"), Some(s("a/b"))).unwrap_err(),
        "No image content provided"
    );
}

#[test]
fn whitespace_around_and_inside_the_payload_is_ignored() {
    let a = extract_image_data(None, Some(s("data:image/png;base64,AAEC")), None);
    let b = extract_image_data(None, Some(s(" data:image/png;base64,AA\nEC ")), None);
    assert_eq!(a, b);
    assert_eq!(a.unwrap(), (vec![0, 1, 2], s("image.png"), s("image/png")));
}

#[test]
fn whitespace_in_comma_and_bare_payloads_is_ignored() {
    let a = extract_image_data(None, Some(s("data:image/gif,AAEC")), None);
    let b = extract_image_data(None, Some(s("data:image/gif,A A\tE\nC")), None);
    assert_eq!(a, b);
    assert_eq!(a.unwrap(), (vec![0, 1, 2], s("image.gif"), s("image/gif")));
    let a = extract_image_data(None, Some(s("AAEC")), Some(s("x.png")));
    let b = extract_image_data(None, Some(s(" AA \r\nEC\n")), Some(s("x.png")));
    assert_eq!(a, b);
}
