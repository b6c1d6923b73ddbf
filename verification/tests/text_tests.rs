use smallpict_rust::paths::{path_extension, path_file_name, path_file_stem};
use smallpict_rust::text::{
    chars_of, concat_strs, parse_unsigned_exec, push_decimal, str_contains_lowered, str_equals,
    str_lowers_to, trim_str,
};

#[test]
fn trim_matches_std_trim() {
    for s in ["  a b  ", "\t\n x\r\n", "", "   ", "\u{3000}x\u{a0}", "x"] {
        assert_eq!(trim_str(s), s.trim());
    }
}

#[test]
fn decimal_notation_of_numbers() {
    for n in [0u64, 7, 10, 1790236606, u64::MAX] {
        let mut s = String::from("t");
        push_decimal(&mut s, n);
        assert_eq!(s, format!("t{}", n));
    }
}

#[test]
fn unsigned_parsing_agrees_with_from_str() {
    for s in ["8001", "+80", "0", "65535", "65536", "", "+", "-1", "12a", " 1", "007"] {
        assert_eq!(parse_unsigned_exec(s, 65535), s.parse::<u16>().ok().map(|v| v as u64));
        assert_eq!(parse_unsigned_exec(s, 255), s.parse::<u8>().ok().map(|v| v as u64));
    }
}

#[test]
fn lowered_comparisons() {
    assert!(str_lowers_to("LoCaLe", "locale"));
    assert!(!str_lowers_to("locales", "locale"));
    assert!(str_contains_lowered("Multipart/Form-Data; boundary=x", "multipart/form-data"));
    assert!(!str_contains_lowered("text/plain", "application/json"));
    assert!(str_equals("image", "image"));
    assert!(!str_equals("image", "Image"));
    assert_eq!(concat_strs("ab", "cd"), "abcd");
    assert_eq!(chars_of("héllo").len(), 5);
}

#[test]
fn path_parts_match_std_path() {

    for p in [
        "sample.jpg",
        "dir/photo.png",
        "a/b/",
        "a/.",
        "..",
        "a/..",
        ".bashrc",
        "archive.tar.gz",
        "noext",
        "trailing.",
        "/",
        "",
        ".",
        "./x.webp",
        "https://cdn.example.com/i/abc.WEBP",
        "..x",
    ] {
        let path = std::path::Path::new(p);
        let name = path_file_name(p).map(|v| v.into_iter().collect::<String>());
        assert_eq!(name.as_deref(), path.file_name().and_then(|s| s.to_str()), "{}", p);
        assert_eq!(
            path_file_stem(p).as_deref(),
            path.file_stem().and_then(|s| s.to_str()),
            "{}",
            p
        );
        assert_eq!(
            path_extension(p).as_deref(),
            path.extension().and_then(|s| s.to_str()),
            "{}",
            p
        );
    }
}
