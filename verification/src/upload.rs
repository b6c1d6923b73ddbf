//! The upload of an extracted image: the decisions between the outside steps
//! (the SmallPict optimizer, object storage, the file system, the database).
//!
//! The flow is a state machine. [`UploadFlow::start`] gives the first
//! [`UploadAction`]; the caller performs it and reports the outcome as an
//! [`UploadEvent`] to [`UploadFlow::step`], which gives the next action,
//! until the action is `Finish` or `Fail`.

use vstd::prelude::*;

use crate::config::Config;
use crate::mime::{extension_for_mime, image_format_named, mime_to_extension, string_to_image_format, ImageFormat};
use crate::paths::{extension, file_stem, path_extension, path_file_stem};
use crate::text::{
    before_char, before_char_exec, chars_of, concat_strs, decimal, lemma_lowers_to_unique,
    lowers_to, no_ascii_upper, push_decimal, string_of, str_lowers_to,
};

verus! {

/// The number of times the job status is asked for at most.
pub const MAX_POLLS: u8 = 20;

/// Where the flow stands.
#[derive(Clone, Copy, Debug, PartialEq, Eq, Structural)]
pub enum Stage {
    /// Waiting for the optimizer's answer.
    Optimizing,
    /// Waiting for the optimized object to be uploaded.
    Uploading,
    /// Waiting for a job status.
    Polling,
    /// Waiting for the optimized image to be downloaded and stored.
    Downloading,
    /// Waiting for the original image to be stored.
    Storing,
    /// Waiting for the record to be saved.
    Saving,
    /// The record is saved.
    Done,
    /// The upload failed.
    Failed,
}

/// What the flow starts from.
#[derive(Clone, Debug)]
pub struct UploadInput {
    /// The identifier of the new record.
    pub image_id: String,
    /// The number of bytes of the image.
    pub data_len: usize,
    /// The file name given with the image.
    pub filename: String,
    /// The MIME type of the image.
    pub mime_type: String,
    /// The time of the upload, in seconds since the Unix epoch.
    pub now_sec: u64,
}

/// The record of an uploaded image, as it is saved.
#[derive(Clone, Debug)]
pub struct ImageRow {
    pub id: String,
    pub filename: String,
    pub url: String,
    pub size: i64,
    pub size_origin: i64,
    pub mime_type: String,
}

/// What the optimizer is asked for.
#[derive(Clone, Debug)]
pub struct OptimizeRequest {
    pub filename: String,
    pub mime_type: String,
    pub format: ImageFormat,
    pub quality: u8,
}

/// The next outside step.
#[derive(Clone, Debug)]
pub enum UploadAction {
    /// Build the SmallPict client from the configuration and optimize the image.
    Optimize(OptimizeRequest),
    /// Build an HTTP client and `PUT` the image to `upload_url` with this content type.
    PutObject { upload_url: String, mime_type: String },
    /// Wait two seconds, then ask for the status of the job.
    PollJob { job_id: String },
    /// Create the upload directory, download `url` and write it there as `filename`.
    Download { url: String, filename: String },
    /// Create the upload directory and write the original image there as `filename`.
    StoreOriginal { filename: String },
    /// Insert the record.
    Save(ImageRow),
    /// The saved record is the answer.
    Finish,
    /// The upload fails with this text.
    Fail(String),
}

/// The optimizer's answer.
#[derive(Clone, Debug)]
pub struct OptimizeReply {
    pub url: String,
    pub upload_url: Option<String>,
    pub job_id: String,
    pub status: String,
}

/// A job status.
#[derive(Clone, Debug)]
pub struct JobReport {
    pub status: String,
    pub url: Option<String>,
    pub bytes_saved: Option<u64>,
}

/// The outcome of an outside step.
#[derive(Clone, Debug)]
pub enum UploadEvent {
    /// A client could not be built; the error text.
    ClientFailed(String),
    /// The optimizer failed; the error text.
    OptimizeFailed(String),
    /// The optimizer answered.
    Optimized(OptimizeReply),
    /// An HTTP request could not be sent; the error text.
    RequestFailed(String),
    /// An HTTP request was answered, with a success status or not; the status text.
    Responded { success: bool, status: String },
    /// A job status, or `None` where asking for it failed.
    JobPolled(Option<JobReport>),
    /// A file-system step or reading a response failed; the error text.
    IoFailed(String),
    /// The download was written; its length in bytes.
    Downloaded { len: usize },
    /// The original image was written.
    Stored,
    /// The record could not be saved; the error text.
    SaveFailed(String),
    /// The record was saved.
    Saved,
}

/// The state of an upload.
#[derive(Clone, Debug)]
pub struct UploadFlow {
    pub stage: Stage,
    pub base_name: String,
    pub now_sec: u64,
    pub image_id: String,
    pub filename: String,
    pub mime_type: String,
    pub size_origin: i64,
    pub size: i64,
    pub remote_url: String,
    pub job_id: String,
    pub job_status: String,
    pub local_mode: bool,
    pub polls: u8,
}

// ---------------------------------------------------------------------------
// Mathematical views
// ---------------------------------------------------------------------------

#[verifier::ext_equal]
pub struct FlowView {
    pub stage: Stage,
    pub base_name: Seq<char>,
    pub now_sec: u64,
    pub image_id: Seq<char>,
    pub filename: Seq<char>,
    pub mime_type: Seq<char>,
    pub size_origin: i64,
    pub size: i64,
    pub remote_url: Seq<char>,
    pub job_id: Seq<char>,
    pub job_status: Seq<char>,
    pub local_mode: bool,
    pub polls: u8,
}

#[verifier::ext_equal]
pub struct RowView {
    pub id: Seq<char>,
    pub filename: Seq<char>,
    pub url: Seq<char>,
    pub size: i64,
    pub size_origin: i64,
    pub mime_type: Seq<char>,
}

#[verifier::ext_equal]
pub enum ActionView {
    Optimize { filename: Seq<char>, mime_type: Seq<char>, format: ImageFormat, quality: u8 },
    PutObject { upload_url: Seq<char>, mime_type: Seq<char> },
    PollJob { job_id: Seq<char> },
    Download { url: Seq<char>, filename: Seq<char> },
    StoreOriginal { filename: Seq<char> },
    Save(RowView),
    Finish,
    Fail(Seq<char>),
}

pub struct JobView {
    pub status: Seq<char>,
    pub url: Option<Seq<char>>,
    pub bytes_saved: Option<u64>,
}

pub enum EventView {
    ClientFailed(Seq<char>),
    OptimizeFailed(Seq<char>),
    Optimized { url: Seq<char>, upload_url: Option<Seq<char>>, job_id: Seq<char>, status: Seq<char> },
    RequestFailed(Seq<char>),
    Responded { success: bool, status: Seq<char> },
    JobPolled(Option<JobView>),
    IoFailed(Seq<char>),
    Downloaded { len: usize },
    Stored,
    SaveFailed(Seq<char>),
    Saved,
}

pub open spec fn opt_view(v: Option<String>) -> Option<Seq<char>> {
    match v {
        Some(s) => Some(s@),
        None => None,
    }
}

impl View for UploadFlow {
    type V = FlowView;

    open spec fn view(&self) -> FlowView {
        FlowView {
            stage: self.stage,
            base_name: self.base_name@,
            now_sec: self.now_sec,
            image_id: self.image_id@,
            filename: self.filename@,
            mime_type: self.mime_type@,
            size_origin: self.size_origin,
            size: self.size,
            remote_url: self.remote_url@,
            job_id: self.job_id@,
            job_status: self.job_status@,
            local_mode: self.local_mode,
            polls: self.polls,
        }
    }
}

impl View for ImageRow {
    type V = RowView;

    open spec fn view(&self) -> RowView {
        RowView {
            id: self.id@,
            filename: self.filename@,
            url: self.url@,
            size: self.size,
            size_origin: self.size_origin,
            mime_type: self.mime_type@,
        }
    }
}

impl View for UploadAction {
    type V = ActionView;

    open spec fn view(&self) -> ActionView {
        match self {
            UploadAction::Optimize(r) => ActionView::Optimize {
                filename: r.filename@,
                mime_type: r.mime_type@,
                format: r.format,
                quality: r.quality,
            },
            UploadAction::PutObject { upload_url, mime_type } => ActionView::PutObject {
                upload_url: upload_url@,
                mime_type: mime_type@,
            },
            UploadAction::PollJob { job_id } => ActionView::PollJob { job_id: job_id@ },
            UploadAction::Download { url, filename } => ActionView::Download {
                url: url@,
                filename: filename@,
            },
            UploadAction::StoreOriginal { filename } => ActionView::StoreOriginal {
                filename: filename@,
            },
            UploadAction::Save(row) => ActionView::Save(row@),
            UploadAction::Finish => ActionView::Finish,
            UploadAction::Fail(m) => ActionView::Fail(m@),
        }
    }
}

impl View for UploadEvent {
    type V = EventView;

    open spec fn view(&self) -> EventView {
        match self {
            UploadEvent::ClientFailed(e) => EventView::ClientFailed(e@),
            UploadEvent::OptimizeFailed(e) => EventView::OptimizeFailed(e@),
            UploadEvent::Optimized(r) => EventView::Optimized {
                url: r.url@,
                upload_url: opt_view(r.upload_url),
                job_id: r.job_id@,
                status: r.status@,
            },
            UploadEvent::RequestFailed(e) => EventView::RequestFailed(e@),
            UploadEvent::Responded { success, status } => EventView::Responded {
                success: *success,
                status: status@,
            },
            UploadEvent::JobPolled(r) => EventView::JobPolled(
                match r {
                    Some(j) => Some(
                        JobView { status: j.status@, url: opt_view(j.url), bytes_saved: j.bytes_saved },
                    ),
                    None => None,
                },
            ),
            UploadEvent::IoFailed(e) => EventView::IoFailed(e@),
            UploadEvent::Downloaded { len } => EventView::Downloaded { len: *len },
            UploadEvent::Stored => EventView::Stored,
            UploadEvent::SaveFailed(e) => EventView::SaveFailed(e@),
            UploadEvent::Saved => EventView::Saved,
        }
    }
}

// ---------------------------------------------------------------------------
// The rules of the flow
// ---------------------------------------------------------------------------

/// The base of the stored file name: the stem of the given name, or `image`
/// where it has none or an empty one.
pub open spec fn base_name_of(filename: Seq<char>) -> Seq<char> {
    match file_stem(filename) {
        Some(s) => if s.len() == 0 {
            "image"@
        } else {
            s
        },
        None => "image"@,
    }
}

/// The extension of the stored file, with its dot: that of the given name, or
/// the one that goes with the MIME type.
pub open spec fn extension_of(filename: Seq<char>, mime: Seq<char>) -> Seq<char> {
    match extension(filename) {
        Some(e) => "."@ + e,
        None => extension_for_mime(mime),
    }
}

/// `<base>_<seconds><ext>`.
pub open spec fn stamped_name(base: Seq<char>, now_sec: u64, ext: Seq<char>) -> Seq<char> {
    base + "_"@ + decimal(now_sec as nat) + ext
}

/// The mode setting asks for local storage (`locale` or `local`, any case).
pub open spec fn is_local_mode(mode: Seq<char>) -> bool {
    lowers_to(mode, "locale"@) || lowers_to(mode, "local"@)
}

/// Both SmallPict keys are set.
pub open spec fn has_credentials(c: Config) -> bool {
    c.smallpict_api_key@.len() > 0 && c.smallpict_secret_key@.len() > 0
}

/// The state and action that an upload starts with: the stored file name is
/// stamped with the time; with SmallPict keys the image goes to the
/// optimizer, without them it is stored as it is.
pub open spec fn start_state(c: Config, i: UploadInput) -> (FlowView, ActionView) {
    let base = base_name_of(i.filename@);
    let name = stamped_name(base, i.now_sec, extension_of(i.filename@, i.mime_type@));
    let f = FlowView {
        stage: if has_credentials(c) {
            Stage::Optimizing
        } else {
            Stage::Storing
        },
        base_name: base,
        now_sec: i.now_sec,
        image_id: i.image_id@,
        filename: name,
        mime_type: i.mime_type@,
        size_origin: i.data_len as i64,
        size: i.data_len as i64,
        remote_url: Seq::empty(),
        job_id: Seq::empty(),
        job_status: Seq::empty(),
        local_mode: is_local_mode(c.smallpict_mode@),
        polls: 0,
    };
    if has_credentials(c) {
        (
            f,
            ActionView::Optimize {
                filename: name,
                mime_type: i.mime_type@,
                format: image_format_named(c.smallpict_format@),
                quality: c.smallpict_quality,
            },
        )
    } else {
        (f, ActionView::StoreOriginal { filename: name })
    }
}

/// The failure of the upload with `msg`.
pub open spec fn failure(f: FlowView, msg: Seq<char>) -> (FlowView, ActionView) {
    (FlowView { stage: Stage::Failed, ..f }, ActionView::Fail(msg))
}

/// The record that is saved from the state `f` with the image address `url`.
pub open spec fn row_of(f: FlowView, url: Seq<char>) -> RowView {
    RowView {
        id: f.image_id,
        filename: f.filename,
        url,
        size: f.size,
        size_origin: f.size_origin,
        mime_type: f.mime_type,
    }
}

/// Saving the record with the address `url`.
pub open spec fn saving(f: FlowView, url: Seq<char>) -> (FlowView, ActionView) {
    (FlowView { stage: Stage::Saving, ..f }, ActionView::Save(row_of(f, url)))
}

/// The job is still running, or no address came back yet.
pub open spec fn wants_polling(f: FlowView) -> bool {
    ||| lowers_to(f.job_status, "pending"@)
    ||| lowers_to(f.job_status, "processing"@)
    ||| lowers_to(f.job_status, "queued"@)
    ||| f.remote_url.len() == 0
}

/// A job status that means the job is over.
pub open spec fn job_finished(status: Seq<char>) -> bool {
    ||| lowers_to(status, "succeeded"@)
    ||| lowers_to(status, "completed"@)
    ||| lowers_to(status, "success"@)
    ||| lowers_to(status, "ready"@)
    ||| lowers_to(status, "done"@)
}

/// The local file name and MIME type of the optimized image: the extension of
/// the address (without its query) decides, for the formats known here.
pub open spec fn local_target(f: FlowView) -> (Seq<char>, Seq<char>) {
    let clean = before_char(f.remote_url, '?');
    let ext = match extension(clean) {
        Some(e) => e,
        None => Seq::empty(),
    };
    if lowers_to(ext, "webp"@) {
        (stamped_name(f.base_name, f.now_sec, ".webp"@), "image/webp"@)
    } else if lowers_to(ext, "avif"@) {
        (stamped_name(f.base_name, f.now_sec, ".avif"@), "image/avif"@)
    } else if lowers_to(ext, "png"@) {
        (stamped_name(f.base_name, f.now_sec, ".png"@), "image/png"@)
    } else if lowers_to(ext, "jpg"@) || lowers_to(ext, "jpeg"@) {
        (stamped_name(f.base_name, f.now_sec, ".jpg"@), "image/jpeg"@)
    } else {
        (f.filename, f.mime_type)
    }
}

/// The address under which a stored file is served.
pub open spec fn served_url(filename: Seq<char>) -> Seq<char> {
    "/uploads/"@ + filename
}

/// Once polling is over: without an address the upload fails; in local mode
/// the optimized image is downloaded, else its address is saved.
pub open spec fn after_polling(f: FlowView) -> (FlowView, ActionView) {
    if f.remote_url.len() == 0 {
        failure(f, "Failed to retrieve optimized image URL from SmallPict"@)
    } else if f.local_mode {
        let (name, mime) = local_target(f);
        (
            FlowView { stage: Stage::Downloading, filename: name, mime_type: mime, ..f },
            ActionView::Download { url: f.remote_url, filename: name },
        )
    } else {
        saving(f, f.remote_url)
    }
}

/// Once the object is uploaded (or needs no upload): poll while the job runs.
pub open spec fn after_upload(f: FlowView) -> (FlowView, ActionView) {
    if wants_polling(f) {
        (FlowView { stage: Stage::Polling, polls: 1, ..f }, ActionView::PollJob { job_id: f.job_id })
    } else {
        after_polling(f)
    }
}

/// `size_origin - (saved as i64)` does not overflow.
pub open spec fn saving_fits(size_origin: i64, saved: u64) -> bool {
    i64::MIN <= size_origin - (saved as i64) <= i64::MAX
}

/// The events that each stage waits for. A finished job's saving is taken
/// off the original size, which must not overflow.
pub open spec fn accepts(f: FlowView, e: EventView) -> bool {
    match f.stage {
        Stage::Optimizing => e is ClientFailed || e is OptimizeFailed || e is Optimized,
        Stage::Uploading => e is ClientFailed || e is RequestFailed || e is Responded,
        Stage::Polling => match e {
            EventView::JobPolled(r) => match r {
                Some(j) => job_finished(j.status) ==> match j.bytes_saved {
                    Some(s) => saving_fits(f.size_origin, s),
                    None => true,
                },
                None => true,
            },
            _ => false,
        },
        Stage::Downloading => e is ClientFailed || e is RequestFailed || (e matches EventView::Responded { success, .. } && !success) || e is IoFailed
            || e is Downloaded,
        Stage::Storing => e is IoFailed || e is Stored,
        Stage::Saving => e is SaveFailed || e is Saved,
        Stage::Done => false,
        Stage::Failed => false,
    }
}

/// The next state and action after the event `e`.
pub open spec fn transition(f: FlowView, e: EventView) -> (FlowView, ActionView) {
    match f.stage {
        Stage::Optimizing => match e {
            EventView::ClientFailed(m) => failure(f, "SmallPict client error: "@ + m),
            EventView::OptimizeFailed(m) => failure(f, "SmallPict optimize error: "@ + m),
            EventView::Optimized { url, upload_url, job_id, status } => {
                let g = FlowView { remote_url: url, job_id, job_status: status, ..f };
                match upload_url {
                    Some(u) => (
                        FlowView { stage: Stage::Uploading, ..g },
                        ActionView::PutObject { upload_url: u, mime_type: f.mime_type },
                    ),
                    None => after_upload(g),
                }
            },
            _ => (f, ActionView::Finish),
        },
        Stage::Uploading => match e {
            EventView::ClientFailed(m) => failure(f, m),
            EventView::RequestFailed(m) => failure(f, "S3 upload error: "@ + m),
            EventView::Responded { success, status } => if success {
                after_upload(f)
            } else {
                failure(f, "S3 upload failed status "@ + status)
            },
            _ => (f, ActionView::Finish),
        },
        Stage::Polling => match e {
            EventView::JobPolled(r) => {
                if r matches Some(j) && job_finished(j.status) {
                    let j = r->0;
                    let g = FlowView {
                        remote_url: match j.url {
                            Some(u) => u,
                            None => f.remote_url,
                        },
                        size: match j.bytes_saved {
                            Some(s) => (f.size_origin - (s as i64)) as i64,
                            None => f.size,
                        },
                        ..f
                    };
                    after_polling(g)
                } else if f.polls < MAX_POLLS {
                    (
                        FlowView { polls: (f.polls + 1) as u8, ..f },
                        ActionView::PollJob { job_id: f.job_id },
                    )
                } else {
                    after_polling(f)
                }
            },
            _ => (f, ActionView::Finish),
        },
        Stage::Downloading => match e {
            EventView::ClientFailed(m) => failure(f, m),
            EventView::RequestFailed(m) => failure(f, "Failed to download image: "@ + m),
            EventView::Responded { status, .. } => failure(f, "Download failed HTTP "@ + status),
            EventView::IoFailed(m) => failure(f, m),
            EventView::Downloaded { len } => saving(
                FlowView { size: len as i64, ..f },
                served_url(f.filename),
            ),
            _ => (f, ActionView::Finish),
        },
        Stage::Storing => match e {
            EventView::IoFailed(m) => failure(f, m),
            _ => saving(f, served_url(f.filename)),
        },
        Stage::Saving => match e {
            EventView::SaveFailed(m) => failure(f, "Database insert error: "@ + m),
            _ => (FlowView { stage: Stage::Done, ..f }, ActionView::Finish),
        },
        _ => (f, ActionView::Finish),
    }
}

/// What holds of every state of the flow: the stored name carries the time
/// stamp; polling has asked at most [`MAX_POLLS`] times (and at least once
/// while polling); an image stored as it came keeps its size.
pub open spec fn flow_wf(f: FlowView) -> bool {
    &&& f.polls <= MAX_POLLS
    &&& f.stage == Stage::Polling ==> 1 <= f.polls
    &&& f.stage == Stage::Storing ==> f.size == f.size_origin
    &&& exists|ext: Seq<char>| f.filename == #[trigger] stamped_name(f.base_name, f.now_sec, ext)
}

// ---------------------------------------------------------------------------
// The flow
// ---------------------------------------------------------------------------

/// `<base>_<seconds><ext>`.
pub fn stamp_name(base: &str, now_sec: u64, ext: &str) -> (name: String)
    ensures
        name@ == stamped_name(base@, now_sec, ext@),
{
    let mut name = String::from_str(base);
    name.append("_");
    push_decimal(&mut name, now_sec);
    name.append(ext);
    name
}

/// The base of the stored file name for the given name.
pub fn base_name_for(filename: &str) -> (b: String)
    ensures
        b@ == base_name_of(filename@),
{
    match path_file_stem(filename) {
        Some(s) => if s.as_str().is_empty() {
            String::from_str("image")
        } else {
            s
        },
        None => String::from_str("image"),
    }
}

/// The extension, with its dot, of the stored file.
pub fn extension_for(filename: &str, mime_type: &str) -> (e: String)
    ensures
        e@ == extension_of(filename@, mime_type@),
{
    match path_extension(filename) {
        Some(x) => concat_strs(".", x.as_str()),
        None => String::from_str(mime_to_extension(mime_type)),
    }
}

// ---------------------------------------------------------------------------
// Laws of the flow
// ---------------------------------------------------------------------------

/// The stored file name keeps its time stamp through the local renaming.
proof fn lemma_local_target_stamped(f: FlowView)
    requires
        flow_wf(f),
    ensures
        exists|ext: Seq<char>| local_target(f).0 == #[trigger] stamped_name(
            f.base_name,
            f.now_sec,
            ext,
        ),
{
    let ext = choose|ext: Seq<char>| f.filename == #[trigger] stamped_name(f.base_name, f.now_sec, ext);
    let t = local_target(f).0;
    if t == stamped_name(f.base_name, f.now_sec, ".webp"@) {
    } else if t == stamped_name(f.base_name, f.now_sec, ".avif"@) {
    } else if t == stamped_name(f.base_name, f.now_sec, ".png"@) {
    } else if t == stamped_name(f.base_name, f.now_sec, ".jpg"@) {
    } else {
        assert(t == stamped_name(f.base_name, f.now_sec, ext));
    }
}

/// Every step keeps what holds of every state of the flow.
pub proof fn lemma_step_keeps_wf(f: FlowView, e: EventView)
    requires
        flow_wf(f),
        accepts(f, e),
    ensures
        flow_wf(transition(f, e).0),
{
    let ext = choose|ext: Seq<char>| f.filename == #[trigger] stamped_name(f.base_name, f.now_sec, ext);
    lemma_local_target_stamped(f);
    let g = transition(f, e).0;
    assert(g.base_name == f.base_name && g.now_sec == f.now_sec);
    if g.filename == f.filename {
        assert(g.filename == stamped_name(g.base_name, g.now_sec, ext));
    } else {
        // Only the local renaming changes the name; it depends on the address.
        match e {
            EventView::JobPolled(r) => {
                let h = FlowView {
                    remote_url: match r {
                        Some(j) => match j.url {
                            Some(u) => u,
                            None => f.remote_url,
                        },
                        None => f.remote_url,
                    },
                    size: match r {
                        Some(j) => match j.bytes_saved {
                            Some(s) => (f.size_origin - (s as i64)) as i64,
                            None => f.size,
                        },
                        None => f.size,
                    },
                    ..f
                };
                lemma_local_target_stamped(h);
                if r matches Some(j) && job_finished(j.status) {
                    assert(g.filename == local_target(h).0);
                } else {
                    assert(g.filename == local_target(f).0);
                }
            },
            EventView::Optimized { url, upload_url, job_id, status } => {
                let h = FlowView { remote_url: url, job_id, job_status: status, ..f };
                lemma_local_target_stamped(h);
                assert(g.filename == local_target(h).0);
            },
            _ => {
                assert(g.filename == local_target(f).0);
            },
        }
    }
}

/// The job status is asked for at most [`MAX_POLLS`] times: each request for
/// it counts one more, the count starts at one, and no request goes out past
/// the limit.
pub proof fn lemma_polls_bounded(f: FlowView, e: EventView)
    requires
        flow_wf(f),
        accepts(f, e),
    ensures
        transition(f, e).1 is PollJob ==> {
            &&& transition(f, e).0.stage == Stage::Polling
            &&& transition(f, e).0.polls <= MAX_POLLS
            &&& transition(f, e).0.polls == if f.stage == Stage::Polling {
                f.polls + 1
            } else {
                1
            }
        },
{
}

/// A failed upload stays failed: after a `Fail` action no event is taken in.
pub proof fn lemma_failure_is_final(f: FlowView, e: EventView, next: EventView)
    requires
        accepts(f, e),
        transition(f, e).1 is Fail,
    ensures
        transition(f, e).0.stage == Stage::Failed,
        !accepts(transition(f, e).0, next),
{
}

/// What a saved record holds: the identifier and original size that the
/// upload started with, the current file name and MIME type; a file stored
/// here is served under `/uploads/` and its name; an image stored as it came
/// keeps its original size.
pub proof fn lemma_saved_record(f: FlowView, e: EventView)
    requires
        flow_wf(f),
        accepts(f, e),
    ensures
        transition(f, e).1 matches ActionView::Save(row) ==> {
            &&& row.id == f.image_id
            &&& row.size_origin == f.size_origin
            &&& row.filename == transition(f, e).0.filename
            &&& row.mime_type == transition(f, e).0.mime_type
            &&& (f.stage == Stage::Storing || f.stage == Stage::Downloading) ==> row.url
                == served_url(row.filename)
            &&& f.stage == Stage::Storing ==> row.size == f.size_origin
        },
{
}

/// The upload finishes only once the record is saved.
pub proof fn lemma_finish_after_save(f: FlowView, e: EventView)
    requires
        accepts(f, e),
        transition(f, e).1 is Finish,
    ensures
        f.stage == Stage::Saving,
        e is Saved,
        transition(f, e).0.stage == Stage::Done,
{
}

/// An upper bound on the number of steps left from the state `f`.
pub open spec fn steps_left(f: FlowView) -> nat {
    match f.stage {
        Stage::Optimizing => 25,
        Stage::Uploading => 24,
        Stage::Polling => (3 + MAX_POLLS - f.polls) as nat,
        Stage::Downloading => 2,
        Stage::Storing => 2,
        Stage::Saving => 1,
        Stage::Done => 0,
        Stage::Failed => 0,
    }
}

/// Every upload comes to an end: each step brings it closer, and a state
/// that takes no event has no step left.
pub proof fn lemma_flow_terminates(f: FlowView, e: EventView)
    requires
        flow_wf(f),
        accepts(f, e),
    ensures
        steps_left(transition(f, e).0) < steps_left(f),
        steps_left(f) > 0,
{
}

/// A job that the optimizer reports as pending, processing or queued is
/// polled for, with its job identifier, whatever address came with the
/// answer: straight after the optimizer's answer where there is nothing to
/// upload.
pub proof fn lemma_running_job_polled(
    f: FlowView,
    url: Seq<char>,
    job_id: Seq<char>,
    status: Seq<char>,
)
    requires
        f.stage == Stage::Optimizing,
        lowers_to(status, "pending"@) || lowers_to(status, "processing"@) || lowers_to(
            status,
            "queued"@,
        ),
    ensures
        ({
            let (g, a) = transition(
                f,
                EventView::Optimized { url, upload_url: None, job_id, status },
            );
            &&& a == ActionView::PollJob { job_id }
            &&& g.stage == Stage::Polling
            &&& g.polls == 1
            &&& g.size == f.size
        }),
{
}

/// A job that the optimizer reported as pending, processing or queued is
/// polled for once its object has been uploaded.
pub proof fn lemma_running_job_polled_after_upload(f: FlowView, status: Seq<char>)
    requires
        f.stage == Stage::Uploading,
        lowers_to(f.job_status, "pending"@) || lowers_to(f.job_status, "processing"@)
            || lowers_to(f.job_status, "queued"@),
    ensures
        ({
            let (g, a) = transition(f, EventView::Responded { success: true, status });
            &&& a == ActionView::PollJob { job_id: f.job_id }
            &&& g.stage == Stage::Polling
            &&& g.polls == 1
        }),
{
}

/// The download that local mode asks for, once polling is over with an
/// address: a WebP, AVIF, PNG or JPEG address (by the extension of its path,
/// before any `?`, in any case) is stored under the stamped name with that
/// format's extension, and the record takes that format's MIME type.
pub proof fn lemma_local_download_target(f: FlowView, e: Seq<char>)
    requires
        f.local_mode,
        f.remote_url.len() > 0,
        extension(before_char(f.remote_url, '?')) == Some(e),
    ensures
        ({
            let (g, a) = after_polling(f);
            let named = |ext: Seq<char>, mime: Seq<char>|
                {
                    &&& a == ActionView::Download {
                        url: f.remote_url,
                        filename: stamped_name(f.base_name, f.now_sec, ext),
                    }
                    &&& g.stage == Stage::Downloading
                    &&& g.filename == stamped_name(f.base_name, f.now_sec, ext)
                    &&& g.mime_type == mime
                };
            &&& lowers_to(e, "webp"@) ==> named(".webp"@, "image/webp"@)
            &&& lowers_to(e, "avif"@) ==> named(".avif"@, "image/avif"@)
            &&& lowers_to(e, "png"@) ==> named(".png"@, "image/png"@)
            &&& lowers_to(e, "jpg"@) ==> named(".jpg"@, "image/jpeg"@)
            &&& lowers_to(e, "jpeg"@) ==> named(".jpg"@, "image/jpeg"@)
        }),
{
    reveal_strlit("webp");
    reveal_strlit("avif");
    reveal_strlit("png");
    reveal_strlit("jpg");
    reveal_strlit("jpeg");
    assert(no_ascii_upper("webp"@));
    assert(no_ascii_upper("avif"@));
    assert(no_ascii_upper("png"@));
    assert(no_ascii_upper("jpg"@));
    assert(no_ascii_upper("jpeg"@));
    assert("webp"@[0] == 'w' && "avif"@[0] == 'a' && "png"@[0] == 'p' && "jpg"@[0] == 'j');
    assert("jpeg"@[0] == 'j');
    if lowers_to(e, "avif"@) && lowers_to(e, "webp"@) {
        lemma_lowers_to_unique(e, "avif"@, "webp"@);
    }
    if lowers_to(e, "png"@) && lowers_to(e, "webp"@) {
        lemma_lowers_to_unique(e, "png"@, "webp"@);
    }
    if lowers_to(e, "png"@) && lowers_to(e, "avif"@) {
        lemma_lowers_to_unique(e, "png"@, "avif"@);
    }
    if lowers_to(e, "jpg"@) && lowers_to(e, "webp"@) {
        lemma_lowers_to_unique(e, "jpg"@, "webp"@);
    }
    if lowers_to(e, "jpg"@) && lowers_to(e, "avif"@) {
        lemma_lowers_to_unique(e, "jpg"@, "avif"@);
    }
    if lowers_to(e, "jpg"@) && lowers_to(e, "png"@) {
        lemma_lowers_to_unique(e, "jpg"@, "png"@);
    }
    if lowers_to(e, "jpeg"@) && lowers_to(e, "webp"@) {
        lemma_lowers_to_unique(e, "jpeg"@, "webp"@);
    }
    if lowers_to(e, "jpeg"@) && lowers_to(e, "avif"@) {
        lemma_lowers_to_unique(e, "jpeg"@, "avif"@);
    }
    if lowers_to(e, "jpeg"@) && lowers_to(e, "png"@) {
        lemma_lowers_to_unique(e, "jpeg"@, "png"@);
    }
}

/// A finished optimization in local mode goes straight to the download of its
/// address, named by the address's format as
/// [`lemma_local_download_target`] says.
pub proof fn lemma_local_finished_optimize(
    f: FlowView,
    url: Seq<char>,
    job_id: Seq<char>,
    status: Seq<char>,
    e: Seq<char>,
)
    requires
        f.stage == Stage::Optimizing,
        f.local_mode,
        url.len() > 0,
        !lowers_to(status, "pending"@),
        !lowers_to(status, "processing"@),
        !lowers_to(status, "queued"@),
        extension(before_char(url, '?')) == Some(e),
        lowers_to(e, "avif"@),
    ensures
        ({
            let (g, a) = transition(
                f,
                EventView::Optimized { url, upload_url: None, job_id, status },
            );
            &&& a == ActionView::Download {
                url,
                filename: stamped_name(f.base_name, f.now_sec, ".avif"@),
            }
            &&& g.mime_type == "image/avif"@
        }),
{
    let g = FlowView { remote_url: url, job_id, job_status: status, ..f };
    lemma_local_download_target(g, e);
}

/// The stored file is named after the stem of the given name (the name up to
/// its last `.`, as `Path::file_stem` gives it), then `_`, the time in
/// seconds and the extension; a name without a non-empty stem is stored as
/// `image`.
pub proof fn lemma_start_name(c: Config, i: UploadInput)
    ensures
        ({
            let f = start_state(c, i).0;
            let ext = extension_of(i.filename@, i.mime_type@);
            let fallback = "image"@ + "_"@ + decimal(i.now_sec as nat) + ext;
            match file_stem(i.filename@) {
                Some(st) => if st.len() > 0 {
                    &&& f.base_name == st
                    &&& f.filename == st + "_"@ + decimal(i.now_sec as nat) + ext
                } else {
                    f.filename == fallback
                },
                None => f.filename == fallback,
            }
        }),
{
}

/// The start of the flow satisfies what holds of every state; without both
/// SmallPict keys the image is stored as it came.
pub proof fn lemma_start_wf(c: Config, i: UploadInput)
    ensures
        flow_wf(start_state(c, i).0),
        !has_credentials(c) ==> start_state(c, i).1 == (ActionView::StoreOriginal {
            filename: start_state(c, i).0.filename,
        }),
        start_state(c, i).0.size_origin == i.data_len as i64,
{
    let f = start_state(c, i).0;
    assert(f.filename == stamped_name(
        f.base_name,
        f.now_sec,
        extension_of(i.filename@, i.mime_type@),
    ));
}

/// Whether the job status `status` means that the job is over.
pub fn job_status_finished(status: &str) -> (b: bool)
    ensures
        b == job_finished(status@),
{
    str_lowers_to(status, "succeeded") || str_lowers_to(status, "completed") || str_lowers_to(
        status,
        "success",
    ) || str_lowers_to(status, "ready") || str_lowers_to(status, "done")
}

/// The bytes of an extracted image and the start of its upload.
pub type UploadStart = (Vec<u8>, UploadFlow, UploadAction);

impl UploadFlow {
    /// Starts the upload of what [`crate::extract::extract_image_data`] gave:
    /// its error is the upload's error; an image starts the flow, with its
    /// length as the original size. The bytes are handed back for the steps
    /// that send or store them.
    pub fn begin(
        config: &Config,
        extracted: Result<(Vec<u8>, String, String), String>,
        image_id: String,
        now_sec: u64,
    ) -> (r: Result<UploadStart, String>)
        ensures
            match extracted {
                Err(e) => r matches Err(e2) && e2@ == e@,
                Ok((data, filename, mime_type)) => r matches Ok((d, flow, action)) && d@ == data@
                    && (flow@, action@) == start_state(
                    *config,
                    UploadInput { image_id, data_len: data.len(), filename, mime_type, now_sec },
                ) && flow_wf(flow@),
            },
    {
        match extracted {
            Err(e) => Err(e),
            Ok((data, filename, mime_type)) => {
                let input = UploadInput { image_id, data_len: data.len(), filename, mime_type, now_sec };
                let (flow, action) = UploadFlow::start(config, input);
                Ok((data, flow, action))
            },
        }
    }

    /// The state and the first action of the upload of `input`.
    pub fn start(config: &Config, input: UploadInput) -> (r: (UploadFlow, UploadAction))
        ensures
            (r.0@, r.1@) == start_state(*config, input),
            flow_wf(r.0@),
    {
        let base = base_name_for(input.filename.as_str());
        let ext = extension_for(input.filename.as_str(), input.mime_type.as_str());
        let name = stamp_name(base.as_str(), input.now_sec, ext.as_str());
        let credentials = !config.smallpict_api_key.as_str().is_empty()
            && !config.smallpict_secret_key.as_str().is_empty();
        let local_mode = str_lowers_to(config.smallpict_mode.as_str(), "locale") || str_lowers_to(
            config.smallpict_mode.as_str(),
            "local",
        );
        let size_origin = input.data_len as i64;
        let flow = UploadFlow {
            stage: if credentials {
                Stage::Optimizing
            } else {
                Stage::Storing
            },
            base_name: base,
            now_sec: input.now_sec,
            image_id: input.image_id,
            filename: name.clone(),
            mime_type: input.mime_type.clone(),
            size_origin,
            size: size_origin,
            remote_url: String::new(),
            job_id: String::new(),
            job_status: String::new(),
            local_mode,
            polls: 0,
        };
        assert(flow@.filename == stamped_name(flow@.base_name, flow@.now_sec, ext@));
        let action = if credentials {
            UploadAction::Optimize(
                OptimizeRequest {
                    filename: name,
                    mime_type: input.mime_type,
                    format: string_to_image_format(config.smallpict_format.as_str()),
                    quality: config.smallpict_quality,
                },
            )
        } else {
            UploadAction::StoreOriginal { filename: name }
        };
        (flow, action)
    }

    fn fail(&mut self, msg: String) -> (a: UploadAction)
        ensures
            (final(self)@, a@) == failure(old(self)@, msg@),
    {
        self.stage = Stage::Failed;
        UploadAction::Fail(msg)
    }

    fn save(&mut self, url: String) -> (a: UploadAction)
        ensures
            (final(self)@, a@) == saving(old(self)@, url@),
    {
        self.stage = Stage::Saving;
        UploadAction::Save(
            ImageRow {
                id: self.image_id.clone(),
                filename: self.filename.clone(),
                url,
                size: self.size,
                size_origin: self.size_origin,
                mime_type: self.mime_type.clone(),
            },
        )
    }

    /// The local file name and MIME type of the optimized image.
    fn local_target(&self) -> (r: (String, String))
        ensures
            (r.0@, r.1@) == local_target(self@),
    {
        let url = chars_of(self.remote_url.as_str());
        let clean = before_char_exec(url.as_slice(), '?');
        let clean = string_of(clean.as_slice());
        let ext = match path_extension(clean.as_str()) {
            Some(e) => e,
            None => String::new(),
        };
        let e = ext.as_str();
        if str_lowers_to(e, "webp") {
            (stamp_name(self.base_name.as_str(), self.now_sec, ".webp"), String::from_str("image/webp"))
        } else if str_lowers_to(e, "avif") {
            (stamp_name(self.base_name.as_str(), self.now_sec, ".avif"), String::from_str("image/avif"))
        } else if str_lowers_to(e, "png") {
            (stamp_name(self.base_name.as_str(), self.now_sec, ".png"), String::from_str("image/png"))
        } else if str_lowers_to(e, "jpg") || str_lowers_to(e, "jpeg") {
            (stamp_name(self.base_name.as_str(), self.now_sec, ".jpg"), String::from_str("image/jpeg"))
        } else {
            (self.filename.clone(), self.mime_type.clone())
        }
    }

    fn after_polling(&mut self) -> (a: UploadAction)
        requires
            flow_wf(old(self)@),
        ensures
            (final(self)@, a@) == after_polling(old(self)@),
    {
        if self.remote_url.as_str().is_empty() {
            return self.fail(String::from_str("Failed to retrieve optimized image URL from SmallPict"));
        }
        if self.local_mode {
            let (name, mime) = self.local_target();
            self.stage = Stage::Downloading;
            self.filename = name.clone();
            self.mime_type = mime;
            UploadAction::Download { url: self.remote_url.clone(), filename: name }
        } else {
            let url = self.remote_url.clone();
            self.save(url)
        }
    }

    fn after_upload(&mut self) -> (a: UploadAction)
        requires
            flow_wf(old(self)@),
        ensures
            (final(self)@, a@) == after_upload(old(self)@),
    {
        let st = self.job_status.as_str();
        let polling = str_lowers_to(st, "pending") || str_lowers_to(st, "processing")
            || str_lowers_to(st, "queued") || self.remote_url.as_str().is_empty();
        if polling {
            self.stage = Stage::Polling;
            self.polls = 1;
            UploadAction::PollJob { job_id: self.job_id.clone() }
        } else {
            self.after_polling()
        }
    }

    /// Takes in the outcome `event` of the last action and gives the next action.
    pub fn step(&mut self, event: UploadEvent) -> (a: UploadAction)
        requires
            flow_wf(old(self)@),
            accepts(old(self)@, event@),
        ensures
            (final(self)@, a@) == transition(old(self)@, event@),
            flow_wf(final(self)@),
    {
        proof {
            lemma_step_keeps_wf(old(self)@, event@);
        }
        match self.stage {
            Stage::Optimizing => match event {
                UploadEvent::ClientFailed(m) => self.fail(concat_strs("SmallPict client error: ", m.as_str())),
                UploadEvent::OptimizeFailed(m) => self.fail(concat_strs("SmallPict optimize error: ", m.as_str())),
                UploadEvent::Optimized(r) => {
                    let ghost ext = choose|ext: Seq<char>|
                        old(self)@.filename == #[trigger] stamped_name(
                            old(self)@.base_name,
                            old(self)@.now_sec,
                            ext,
                        );
                    self.remote_url = r.url;
                    self.job_id = r.job_id;
                    self.job_status = r.status;
                    match r.upload_url {
                        Some(u) => {
                            self.stage = Stage::Uploading;
                            UploadAction::PutObject { upload_url: u, mime_type: self.mime_type.clone() }
                        },
                        None => {
                            assert(self@.filename == stamped_name(
                                self@.base_name,
                                self@.now_sec,
                                ext,
                            ));
                            self.after_upload()
                        },
                    }
                },
                _ => UploadAction::Finish,
            },
            Stage::Uploading => match event {
                UploadEvent::ClientFailed(m) => self.fail(m),
                UploadEvent::RequestFailed(m) => self.fail(concat_strs("S3 upload error: ", m.as_str())),
                UploadEvent::Responded { success, status } => if success {
                    self.after_upload()
                } else {
                    self.fail(concat_strs("S3 upload failed status ", status.as_str()))
                },
                _ => UploadAction::Finish,
            },
            Stage::Polling => match event {
                UploadEvent::JobPolled(r) => {
                    let finished = match &r {
                        Some(j) => job_status_finished(j.status.as_str()),
                        None => false,
                    };
                    if finished {
                        let j = r.unwrap();
                        match j.url {
                            Some(u) => {
                                self.remote_url = u;
                            },
                            None => {},
                        }
                        match j.bytes_saved {
                            Some(saved) => {
                                self.size = self.size_origin - (saved as i64);
                            },
                            None => {},
                        }
                        self.after_polling()
                    } else if self.polls < MAX_POLLS {
                        self.polls = self.polls + 1;
                        UploadAction::PollJob { job_id: self.job_id.clone() }
                    } else {
                        self.after_polling()
                    }
                },
                _ => UploadAction::Finish,
            },
            Stage::Downloading => match event {
                UploadEvent::ClientFailed(m) => self.fail(m),
                UploadEvent::RequestFailed(m) => self.fail(concat_strs("Failed to download image: ", m.as_str())),
                UploadEvent::Responded { status, .. } => self.fail(concat_strs("Download failed HTTP ", status.as_str())),
                UploadEvent::IoFailed(m) => self.fail(m),
                UploadEvent::Downloaded { len } => {
                    self.size = len as i64;
                    let url = concat_strs("/uploads/", self.filename.as_str());
                    self.save(url)
                },
                _ => UploadAction::Finish,
            },
            Stage::Storing => match event {
                UploadEvent::IoFailed(m) => self.fail(m),
                _ => {
                    let url = concat_strs("/uploads/", self.filename.as_str());
                    self.save(url)
                },
            },
            Stage::Saving => match event {
                UploadEvent::SaveFailed(m) => self.fail(concat_strs("Database insert error: ", m.as_str())),
                _ => {
                    self.stage = Stage::Done;
                    UploadAction::Finish
                },
            },
            _ => UploadAction::Finish,
        }
    }
}

} // verus!
