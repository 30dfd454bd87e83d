//! Files that are handed to the platform's object storage.
//!
//! The platform gives out an address for one upload; the file goes straight there.
use vstd::prelude::*;
use crate::chat::webhook;
use crate::chat::webhook::WebhookConfig;
use crate::commands::myclaw_route;
use crate::json::{Json, JsonView};
use crate::paths;
use crate::text;

verus! {

/// The path of the endpoint that gives out addresses for uploads.
pub const UPLOAD_URL_PATH: &'static str = "/api/codeg/upload-url";

/// The largest file in bytes.
pub const MAX_UPLOAD_BYTES: u64 = 209_715_200;

/// How often an upload is tried.
pub const PUT_ATTEMPTS: u32 = 3;

/// The pause between two tries in seconds.
pub const PUT_PAUSE_SECS: u64 = 2;

/// The endpoint that gives out addresses; nothing where the instance is not managed.
pub fn upload_endpoint(hooks: &Vec<WebhookConfig>) -> (r: Option<String>)
    ensures
        r.deep_view() == webhook::endpoint(hooks@, UPLOAD_URL_PATH@),
{
    webhook::derive_endpoint(hooks, UPLOAD_URL_PATH)
}

/// The position of the last dot of a name.
pub open spec fn last_dot(s: Seq<char>) -> Option<int>
    decreases s.len(),
{
    if s.len() == 0 {
        None
    } else if s.last() == '.' {
        Some(s.len() - 1)
    } else {
        last_dot(s.drop_last())
    }
}

/// What follows the last dot of a path's last part, unless that dot is its first
/// character.
pub open spec fn extension(path: Seq<char>) -> Option<Seq<char>> {
    match paths::file_name(path) {
        Some(name) => match last_dot(name) {
            Some(i) => if i > 0 {
                Some(name.skip(i + 1))
            } else {
                None
            },
            None => None,
        },
        None => None,
    }
}

/// The extension of a path.
fn extension_of(path: &str) -> (r: Option<String>)
    ensures
        r.deep_view() == extension(path@),
{
    let name = match paths::name_of(path) {
        Some(n) => n,
        None => {
            return None;
        },
    };
    let v = text::chars(name.as_str());
    let ghost all = name@;
    let mut i: usize = v.len();
    assert(all.take(i as int) =~= all);
    while i > 0 && v[i - 1] != '.'
        invariant
            v@ == all,
            i <= v@.len(),
            last_dot(all) == last_dot(all.take(i as int)),
        decreases i,
    {
        assert(all.take(i as int).last() == all[i - 1]);
        assert(all.take(i as int).drop_last() =~= all.take(i - 1));
        i = i - 1;
    }
    assert(i > 0 ==> all.take(i as int).last() == all[i - 1]);
    if i > 1 {
        let r = text::slice(v.as_slice(), i, v.len());
        assert(r@ =~= all.skip(i as int));
        Some(r)
    } else {
        None
    }
}

/// The media type of files with an extension in small letters.
pub open spec fn media_type(e: Seq<char>) -> Seq<char> {
    if e == "pptx"@ {
        "application/vnd.openxmlformats-officedocument.presentationml.presentation"@
    } else if e == "docx"@ {
        "application/vnd.openxmlformats-officedocument.wordprocessingml.document"@
    } else if e == "xlsx"@ {
        "application/vnd.openxmlformats-officedocument.spreadsheetml.sheet"@
    } else if e == "pdf"@ {
        "application/pdf"@
    } else if e == "png"@ {
        "image/png"@
    } else if e == "jpg"@ || e == "jpeg"@ {
        "image/jpeg"@
    } else if e == "gif"@ {
        "image/gif"@
    } else if e == "svg"@ {
        "image/svg+xml"@
    } else if e == "webp"@ {
        "image/webp"@
    } else if e == "mp4"@ {
        "video/mp4"@
    } else if e == "zip"@ {
        "application/zip"@
    } else if e == "json"@ {
        "application/json"@
    } else if e == "csv"@ {
        "text/csv"@
    } else if e == "md"@ {
        "text/markdown"@
    } else if e == "txt"@ || e == "log"@ {
        "text/plain"@
    } else if e == "html"@ || e == "htm"@ {
        "text/html"@
    } else {
        "application/octet-stream"@
    }
}

/// The media type of a file, by its extension; that of any bytes where the extension
/// says nothing.
pub fn guess_mime(path: &str) -> (r: &'static str)
    ensures
        r@ == match extension(path@) {
            Some(e) => media_type(text::lower(e)),
            None => "application/octet-stream"@,
        },
{
    let e = match extension_of(path) {
        Some(e) => text::to_lower(e.as_str()),
        None => {
            return "application/octet-stream";
        },
    };
    let e = e.as_str();
    if text::same(e, "pptx") {
        "application/vnd.openxmlformats-officedocument.presentationml.presentation"
    } else if text::same(e, "docx") {
        "application/vnd.openxmlformats-officedocument.wordprocessingml.document"
    } else if text::same(e, "xlsx") {
        "application/vnd.openxmlformats-officedocument.spreadsheetml.sheet"
    } else if text::same(e, "pdf") {
        "application/pdf"
    } else if text::same(e, "png") {
        "image/png"
    } else if text::same(e, "jpg") || text::same(e, "jpeg") {
        "image/jpeg"
    } else if text::same(e, "gif") {
        "image/gif"
    } else if text::same(e, "svg") {
        "image/svg+xml"
    } else if text::same(e, "webp") {
        "image/webp"
    } else if text::same(e, "mp4") {
        "video/mp4"
    } else if text::same(e, "zip") {
        "application/zip"
    } else if text::same(e, "json") {
        "application/json"
    } else if text::same(e, "csv") {
        "text/csv"
    } else if text::same(e, "md") {
        "text/markdown"
    } else if text::same(e, "txt") || text::same(e, "log") {
        "text/plain"
    } else if text::same(e, "html") || text::same(e, "htm") {
        "text/html"
    } else {
        "application/octet-stream"
    }
}

/// The name of a file without its directories.
pub fn file_name_of(path: &str) -> (r: String)
    ensures
        r@ == match paths::file_name(path@) {
            Some(n) => n,
            None => "file"@,
        },
{
    match paths::name_of(path) {
        Some(n) => n,
        None => "file".to_owned(),
    }
}

/// What is wrong with a file that is to be uploaded.
pub open spec fn file_fault(path: Seq<char>, is_file: bool, size: u64) -> Option<Seq<char>> {
    if !is_file {
        Some("not a file: "@ + path)
    } else if size == 0 {
        Some("file is empty: "@ + path)
    } else if size > MAX_UPLOAD_BYTES {
        Some(
            "file is "@ + text::dec(size as nat) + " bytes; the limit is "@ + text::dec(
                MAX_UPLOAD_BYTES as nat,
            ) + " bytes (200MB)"@,
        )
    } else {
        None
    }
}

/// Checks a file that is to be uploaded.
pub fn check_file(path: &str, is_file: bool, size: u64) -> (r: Result<(), String>)
    ensures
        match file_fault(path@, is_file, size) {
            Some(e) => r matches Err(x) && x@ == e,
            None => r is Ok,
        },
{
    if !is_file {
        return Err(text::cat2("not a file: ", path));
    }
    if size == 0 {
        return Err(text::cat2("file is empty: ", path));
    }
    if size > MAX_UPLOAD_BYTES {
        return Err(
            text::cat5(
                "file is ",
                text::dec_u64(size).as_str(),
                " bytes; the limit is ",
                text::dec_u64(MAX_UPLOAD_BYTES).as_str(),
                " bytes (200MB)",
            ),
        );
    }
    Ok(())
}

/// An upload that can be asked for.
#[derive(Debug, PartialEq, Eq)]
pub struct UploadPlan {
    pub endpoint: String,
    pub file_name: String,
    pub mime: String,
    pub size: u64,
}

/// The upload of files with the webhooks of an instance, from which the endpoint and
/// the right to use it are derived.
pub struct DbArtifactUpload {
    hooks: Vec<WebhookConfig>,
}

impl DbArtifactUpload {
    /// The webhooks.
    pub closed spec fn hooks(&self) -> Seq<WebhookConfig> {
        self.hooks@
    }

    /// With the webhooks of an instance.
    pub fn new(hooks: Vec<WebhookConfig>) -> (r: DbArtifactUpload)
        ensures
            r.hooks() == hooks@,
    {
        DbArtifactUpload { hooks }
    }

    /// What is asked for to upload a file.
    pub fn plan(&self, path: &str, is_file: bool, size: u64) -> (r: Result<UploadPlan, String>)
        ensures
            match file_fault(path@, is_file, size) {
                Some(e) => r matches Err(x) && x@ == e,
                None => match webhook::endpoint(self.hooks(), UPLOAD_URL_PATH@) {
                    None => r matches Err(x) && x@
                        == "this instance is not platform-managed (no webhook configured)"@,
                    Some(url) => r matches Ok(p) && p.endpoint@ == url && p.size == size && p.mime@
                        == match extension(path@) {
                        Some(e) => media_type(text::lower(e)),
                        None => "application/octet-stream"@,
                    } && p.file_name@ == match paths::file_name(path@) {
                        Some(n) => n,
                        None => "file"@,
                    },
                },
            },
    {
        match check_file(path, is_file, size) {
            Err(e) => Err(e),
            Ok(_) => match upload_endpoint(&self.hooks) {
                None => Err(
                    "this instance is not platform-managed (no webhook configured)".to_owned(),
                ),
                Some(endpoint) => Ok(
                    UploadPlan {
                        endpoint,
                        file_name: file_name_of(path),
                        mime: guess_mime(path).to_owned(),
                        size,
                    },
                ),
            },
        }
    }
}

/// What the platform is asked for.
pub fn sign_request(filename: &str, mime: &str, size: u64) -> (r: Json)
    ensures
        r@ == JsonView::empty_object().with("filename"@, JsonView::Str(filename@)).with(
            "mimeType"@,
            JsonView::Str(mime@),
        ).with("size"@, JsonView::of_u64(size)),
{
    Json::empty_object().with("filename", Json::of_str(filename)).with(
        "mimeType",
        Json::of_str(mime),
    ).with("size", Json::of_u64(size))
}

/// Where a file goes, and where it can be read.
#[derive(Debug, PartialEq, Eq)]
pub struct SignedTarget {
    pub upload_url: String,
    pub public_url: String,
}

/// The platform's answer.
#[derive(Debug)]
pub struct ApiEnvelope {
    pub code: i64,
    pub data: Option<SignedTarget>,
    pub msg: Option<String>,
}

/// The error for an answer that is no success. `status` is the status line.
pub fn sign_refused(status: &str, body: &str) -> (r: String)
    ensures
        r@ == "the platform refused the upload (HTTP "@ + status@ + "): "@ + myclaw_route::clipped(
            body@,
        ),
{
    text::cat4(
        "the platform refused the upload (HTTP ",
        status,
        "): ",
        myclaw_route::clip_body(body).as_str(),
    )
}

/// The target that the platform's answer names.
pub fn signed_target(envelope: ApiEnvelope) -> (r: Result<SignedTarget, String>)
    ensures
        if envelope.code != 0 {
            r matches Err(e) && e@ == match envelope.msg {
                Some(m) => m@,
                None => "the platform rejected the upload"@,
            }
        } else {
            match envelope.data {
                Some(t) => r == Ok::<SignedTarget, String>(t),
                None => r matches Err(e) && e@ == "the platform returned no upload target"@,
            }
        },
{
    if envelope.code != 0 {
        return Err(
            match envelope.msg {
                Some(m) => m,
                None => "the platform rejected the upload".to_owned(),
            },
        );
    }
    match envelope.data {
        Some(t) => Ok(t),
        None => Err("the platform returned no upload target".to_owned()),
    }
}

/// What came of a try to upload.
#[derive(Debug)]
pub enum PutReply {
    /// The storage answered, with this status, its line and a body.
    Answered { status: u16, line: String, body: String },
    /// There was no answer.
    Failed(String),
}

/// What follows a try to upload.
#[derive(Debug, PartialEq, Eq)]
pub enum PutStep {
    Over(Result<(), String>),
    /// Pause for so many seconds, then try again.
    Pause(u64),
}

/// What follows the `attempt`-th try to upload: a success or a refusal is final, and
/// any other failure is where it was the last try.
pub fn after_put(attempt: u32, reply: PutReply) -> (r: PutStep)
    ensures
        match reply {
            PutReply::Answered { status, line, body } => match myclaw_route::verdict(status) {
                myclaw_route::Verdict::Registered => r == PutStep::Over(Ok(())),
                myclaw_route::Verdict::Refused => r matches PutStep::Over(Err(e)) && e@
                    == "object storage refused the upload (HTTP "@ + line@ + "): "@
                    + myclaw_route::clipped(body@),
                myclaw_route::Verdict::Retry => if attempt < PUT_ATTEMPTS {
                    r == PutStep::Pause(PUT_PAUSE_SECS)
                } else {
                    r matches PutStep::Over(Err(e)) && e@ == "upload failed after "@ + text::dec(
                        PUT_ATTEMPTS as nat,
                    ) + " attempts: "@ + ("HTTP "@ + line@)
                },
            },
            PutReply::Failed(why) => if attempt < PUT_ATTEMPTS {
                r == PutStep::Pause(PUT_PAUSE_SECS)
            } else {
                r matches PutStep::Over(Err(e)) && e@ == "upload failed after "@ + text::dec(
                    PUT_ATTEMPTS as nat,
                ) + " attempts: "@ + why@
            },
        },
{
    let last = match reply {
        PutReply::Answered { status, line, body } => match myclaw_route::judge_status(status) {
            myclaw_route::Verdict::Registered => {
                return PutStep::Over(Ok(()));
            },
            myclaw_route::Verdict::Refused => {
                return PutStep::Over(
                    Err(
                        text::cat4(
                            "object storage refused the upload (HTTP ",
                            line.as_str(),
                            "): ",
                            myclaw_route::clip_body(body.as_str()).as_str(),
                        ),
                    ),
                );
            },
            myclaw_route::Verdict::Retry => text::cat2("HTTP ", line.as_str()),
        },
        PutReply::Failed(why) => why,
    };
    if attempt < PUT_ATTEMPTS {
        PutStep::Pause(PUT_PAUSE_SECS)
    } else {
        PutStep::Over(
            Err(
                text::cat4(
                    "upload failed after ",
                    text::dec_u64(PUT_ATTEMPTS as u64).as_str(),
                    " attempts: ",
                    last.as_str(),
                ),
            ),
        )
    }
}

} // verus!
