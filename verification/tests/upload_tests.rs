use smallpict_rust::config::{Config, EnvVars};
use smallpict_rust::mime::ImageFormat;
use smallpict_rust::upload::{
    base_name_for, extension_for, job_status_finished, stamp_name, JobReport, OptimizeReply, Stage, UploadAction,
    UploadEvent, UploadFlow, UploadInput, MAX_POLLS,
};

fn s(x: &str) -> String {
    x.to_string()
}

fn config(api_key: &str, secret: &str, mode: &str) -> Config {
    Config::from_vars(&EnvVars {
        db_host: None,
        db_port: None,
        db_user: None,
        db_pass: None,
        db_name: None,
        db_sslmode: None,
        database_url: None,
        app_name: None,
        app_port: None,
        app_host: None,
        smallpict_mode: Some(s(mode)),
        smallpict_base_url: None,
        smallpict_api_key: Some(s(api_key)),
        smallpict_secret_key: Some(s(secret)),
        smallpict_format: Some(s("WEBP")),
        smallpict_quality: Some(s("70")),
        upload_path: None,
    })
}

fn input(filename: &str, mime: &str) -> UploadInput {
    UploadInput {
        image_id: s("id-1"),
        data_len: 111678,
        filename: s(filename),
        mime_type: s(mime),
        now_sec: 1790236606,
    }
}

#[test]
fn stamped_names() {
    assert_eq!(stamp_name("sample", 1790236606, ".webp"), "sample_1790236606.webp");
    assert_eq!(base_name_for("dir/sample.jpg"), "sample");
    assert_eq!(base_name_for(""), "image");
    assert_eq!(base_name_for(".."), "image");
    assert_eq!(extension_for("sample.jpg", "image/png"), ".jpg");
    assert_eq!(extension_for("sample", "image/png"), ".png");
}

#[test]
fn without_keys_the_original_is_stored() {
    let (mut flow, action) = UploadFlow::start(&config("", "secret", "locale"), input("sample.jpg", "image/jpeg"));
    match action {
        UploadAction::StoreOriginal { filename } => assert_eq!(filename, "sample_1790236606.jpg"),
        other => panic!("unexpected {:?}", other),
    }
    match flow.step(UploadEvent::Stored) {
        UploadAction::Save(row) => {
            assert_eq!(row.id, "id-1");
            assert_eq!(row.filename, "sample_1790236606.jpg");
            assert_eq!(row.url, "/uploads/sample_1790236606.jpg");
            assert_eq!(row.size, 111678);
            assert_eq!(row.size_origin, 111678);
            assert_eq!(row.mime_type, "image/jpeg");
        }
        other => panic!("unexpected {:?}", other),
    }
    assert!(matches!(flow.step(UploadEvent::Saved), UploadAction::Finish));
    assert_eq!(flow.stage, Stage::Done);
}

#[test]
fn storing_failure_passes_the_error_through() {
    let (mut flow, _) = UploadFlow::start(&config("", "", "cdn"), input("a.png", "image/png"));
    match flow.step(UploadEvent::IoFailed(s("Permission denied (os error 13)"))) {
        UploadAction::Fail(m) => assert_eq!(m, "Permission denied (os error 13)"),
        other => panic!("unexpected {:?}", other),
    }
    assert_eq!(flow.stage, Stage::Failed);
}

#[test]
fn local_mode_downloads_the_optimized_image() {
    let (mut flow, action) = UploadFlow::start(&config("key", "secret", "Locale"), input("sample.jpg", "image/jpeg"));
    match action {
        UploadAction::Optimize(req) => {
            assert_eq!(req.filename, "sample_1790236606.jpg");
            assert_eq!(req.mime_type, "image/jpeg");
            assert_eq!(req.format, ImageFormat::Webp);
            assert_eq!(req.quality, 70);
        }
        other => panic!("unexpected {:?}", other),
    }
    let a = flow.step(UploadEvent::Optimized(OptimizeReply {
        url: s("https://cdn.example/x/sample.webp?v=2"),
        upload_url: None,
        job_id: s("job"),
        status: s("completed"),
    }));
    match a {
        UploadAction::Download { url, filename } => {
            assert_eq!(url, "https://cdn.example/x/sample.webp?v=2");
            assert_eq!(filename, "sample_1790236606.webp");
        }
        other => panic!("unexpected {:?}", other),
    }
    match flow.step(UploadEvent::Downloaded { len: 43846 }) {
        UploadAction::Save(row) => {
            assert_eq!(row.url, "/uploads/sample_1790236606.webp");
            assert_eq!(row.size, 43846);
            assert_eq!(row.size_origin, 111678);
            assert_eq!(row.mime_type, "image/webp");
        }
        other => panic!("unexpected {:?}", other),
    }
}

#[test]
fn cdn_mode_polls_then_saves_the_address() {
    let (mut flow, _) = UploadFlow::start(&config("key", "secret", "cdn"), input("p.png", "image/png"));
    let a = flow.step(UploadEvent::Optimized(OptimizeReply {
        url: s(""),
        upload_url: Some(s("https://s3.example/put")),
        job_id: s("job-9"),
        status: s("PENDING"),
    }));
    match a {
        UploadAction::PutObject { upload_url, mime_type } => {
            assert_eq!(upload_url, "https://s3.example/put");
            assert_eq!(mime_type, "image/png");
        }
        other => panic!("unexpected {:?}", other),
    }
    let a = flow.step(UploadEvent::Responded { success: true, status: s("200 OK") });
    assert!(matches!(a, UploadAction::PollJob { ref job_id } if job_id == "job-9"));
    let a = flow.step(UploadEvent::JobPolled(None));
    assert!(matches!(a, UploadAction::PollJob { .. }));
    let a = flow.step(UploadEvent::JobPolled(Some(JobReport {
        status: s("Done"),
        url: Some(s("https://cdn.example/p.avif")),
        bytes_saved: Some(100000),
    })));
    match a {
        UploadAction::Save(row) => {
            assert_eq!(row.url, "https://cdn.example/p.avif");
            assert_eq!(row.size, 11678);
            assert_eq!(row.filename, "p_1790236606.png");
        }
        other => panic!("unexpected {:?}", other),
    }
}

#[test]
fn polling_stops_after_the_limit() {
    let (mut flow, _) = UploadFlow::start(&config("key", "secret", "cdn"), input("p.png", "image/png"));
    let mut a = flow.step(UploadEvent::Optimized(OptimizeReply {
        url: s(""),
        upload_url: None,
        job_id: s("j"),
        status: s("queued"),
    }));
    let mut polls = 0;
    while let UploadAction::PollJob { .. } = a {
        polls += 1;
        a = flow.step(UploadEvent::JobPolled(Some(JobReport {
            status: s("processing"),
            url: None,
            bytes_saved: None,
        })));
    }
    assert_eq!(polls, MAX_POLLS as usize);
    match a {
        UploadAction::Fail(m) => assert_eq!(m, "Failed to retrieve optimized image URL from SmallPict"),
        other => panic!("unexpected {:?}", other),
    }
}

#[test]
fn failures_are_worded() {
    let cases: Vec<(Vec<UploadEvent>, &str)> = vec![
        (vec![UploadEvent::ClientFailed(s("bad key"))], "SmallPict client error: bad key"),
        (vec![UploadEvent::OptimizeFailed(s("quota"))], "SmallPict optimize error: quota"),
    ];
    for (events, expected) in cases {
        let (mut flow, _) = UploadFlow::start(&config("k", "s", "cdn"), input("p.png", "image/png"));
        let mut last = UploadAction::Finish;
        for e in events {
            last = flow.step(e);
        }
        match last {
            UploadAction::Fail(m) => assert_eq!(m, expected),
            other => panic!("unexpected {:?}", other),
        }
    }
    let reply = || {
        UploadEvent::Optimized(OptimizeReply {
            url: s("https://cdn.example/a.png"),
            upload_url: Some(s("https://s3")),
            job_id: s("j"),
            status: s("completed"),
        })
    };
    let (mut flow, _) = UploadFlow::start(&config("k", "s", "cdn"), input("p.png", "image/png"));
    flow.step(reply());
    assert!(matches!(flow.step(UploadEvent::RequestFailed(s("timeout"))), UploadAction::Fail(m) if m == "S3 upload error: timeout"));
    let (mut flow, _) = UploadFlow::start(&config("k", "s", "cdn"), input("p.png", "image/png"));
    flow.step(reply());
    assert!(matches!(flow.step(UploadEvent::Responded { success: false, status: s("403 Forbidden") }), UploadAction::Fail(m) if m == "S3 upload failed status 403 Forbidden"));
    let (mut flow, _) = UploadFlow::start(&config("k", "s", "local"), input("p.png", "image/png"));
    flow.step(reply());
    flow.step(UploadEvent::Responded { success: true, status: s("200 OK") });
    assert!(matches!(flow.step(UploadEvent::Responded { success: false, status: s("404 Not Found") }), UploadAction::Fail(m) if m == "Download failed HTTP 404 Not Found"));
    let (mut flow, _) = UploadFlow::start(&config("k", "s", "local"), input("p.png", "image/png"));
    flow.step(reply());
    flow.step(UploadEvent::Responded { success: true, status: s("200 OK") });
    assert!(matches!(flow.step(UploadEvent::RequestFailed(s("dns"))), UploadAction::Fail(m) if m == "Failed to download image: dns"));
    let (mut flow, _) = UploadFlow::start(&config("", "", "local"), input("p.png", "image/png"));
    flow.step(UploadEvent::Stored);
    assert!(matches!(flow.step(UploadEvent::SaveFailed(s("duplicate key"))), UploadAction::Fail(m) if m == "Database insert error: duplicate key"));
}

#[test]
fn savings_of_an_unfinished_job_are_ignored() {
    let (mut flow, _) = UploadFlow::start(&config("key", "secret", "cdn"), UploadInput {
        image_id: s("id"),
        data_len: 5,
        filename: s("a.png"),
        mime_type: s("image/png"),
        now_sec: 1,
    });
    flow.step(UploadEvent::Optimized(OptimizeReply {
        url: s(""),
        upload_url: None,
        job_id: s("j"),
        status: s("pending"),
    }));
    let a = flow.step(UploadEvent::JobPolled(Some(JobReport {
        status: s("pending"),
        url: None,
        bytes_saved: Some(1u64 << 63),
    })));
    assert!(matches!(a, UploadAction::PollJob { .. }));
    assert_eq!(flow.size, 5);
}

#[test]
fn finished_statuses() {
    for st in ["succeeded", "Completed", "SUCCESS", "ready", "done"] {
        assert!(job_status_finished(st));
    }
    for st in ["pending", "failed", "", "done "] {
        assert!(!job_status_finished(st));
    }
}

#[test]
fn begin_passes_errors_and_starts_images() {
    let c = config("", "", "cdn");
    match UploadFlow::begin(&c, Err(s("No image content provided")), s("id"), 7) {
        Err(e) => assert_eq!(e, "No image content provided"),
        Ok(_) => panic!("expected the extraction error"),
    }
    let (data, flow, action) =
        UploadFlow::begin(&c, Ok((vec![1, 2, 3], s("x.gif"), s("image/gif"))), s("id"), 7).unwrap();
    assert_eq!(data, vec![1, 2, 3]);
    assert_eq!(flow.size_origin, 3);
    assert!(matches!(action, UploadAction::StoreOriginal { filename } if filename == "x_7.gif"));
}
