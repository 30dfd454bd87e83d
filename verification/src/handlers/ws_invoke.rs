//! Calls of the interface over a web socket.
use vstd::prelude::*;
use crate::digest;
use crate::json;
use crate::json::{Json, JsonView};
use crate::text;

verus! {

/// The longest name of a call in bytes.
pub const MAX_NAME_BYTES: usize = 128;

/// A call.
#[derive(Debug)]
pub struct InvokeJob {
    pub request_id: String,
    pub name: String,
    pub body: Json,
}

/// The answer to a call.
#[derive(Debug, PartialEq)]
pub struct InvokeResult {
    pub request_id: String,
    pub status: u16,
    pub ok: bool,
    pub data: Json,
}

/// The content of an `InvokeResult`.
#[verifier::ext_equal]
pub struct InvokeView {
    pub request_id: Seq<char>,
    pub status: u16,
    pub ok: bool,
    pub data: JsonView,
}

impl View for InvokeResult {
    type V = InvokeView;

    open spec fn view(&self) -> InvokeView {
        InvokeView {
            request_id: self.request_id@,
            status: self.status,
            ok: self.ok,
            data: self.data@,
        }
    }
}

/// Whether a character may stand in the name of a call.
pub open spec fn name_char(c: char) -> bool {
    'a' <= c <= 'z' || 'A' <= c <= 'Z' || '0' <= c <= '9' || c == '_' || c == '-' || c == '/'
}

/// Whether a text is a path of the interface: letters, digits, underscores, dashes and
/// slashes, with no slash in front and none behind another, and not too long.
pub open spec fn good_name(s: Seq<char>) -> bool {
    &&& 0 < s.len() <= MAX_NAME_BYTES
    &&& s[0] != '/'
    &&& !text::contains(s, "//"@)
    &&& forall|i: int| 0 <= i < s.len() ==> name_char(#[trigger] s[i])
}

/// Whether a text is a path of the interface.
pub fn valid_name(name: &str) -> (r: bool)
    ensures
        r == good_name(name@),
{
    let v = text::chars(name);
    if v.len() == 0 || v.len() > MAX_NAME_BYTES || v[0] == '/' {
        return false;
    }
    if text::has(name, "//") {
        return false;
    }
    for i in 0..v.len()
        invariant
            v@ == name@,
            forall|j: int| 0 <= j < i ==> name_char(#[trigger] v@[j]),
    {
        let c = v[i];
        if !(('a' <= c && c <= 'z') || ('A' <= c && c <= 'Z') || ('0' <= c && c <= '9') || c == '_'
            || c == '-' || c == '/') {
            assert(!name_char(name@[i as int]));
            return false;
        }
    }
    true
}

/// The path that a call goes to, or its answer where it goes nowhere.
pub fn route_job(job: InvokeJob) -> (r: Result<(String, String, Json), InvokeResult>)
    ensures
        if good_name(job.name@) {
            r matches Ok(x) && x.0 == job.request_id && x.1@ == "/"@ + job.name@ && x.2 == job.body
        } else {
            r matches Err(e) && e@ == (InvokeView {
                request_id: job.request_id@,
                status: 400,
                ok: false,
                data: JsonView::Str("invalid invoke name: "@ + job.name@),
            })
        },
{
    if valid_name(job.name.as_str()) {
        Ok((job.request_id, text::cat2("/", job.name.as_str()), job.body))
    } else {
        Err(
            InvokeResult {
                request_id: job.request_id,
                status: 400,
                ok: false,
                data: Json::of_str(text::cat2("invalid invoke name: ", job.name.as_str()).as_str()),
            },
        )
    }
}

/// The value of a response's body: nothing where it is empty, its JSON, or its text.
pub open spec fn body_value(bytes: Seq<u8>) -> JsonView {
    if bytes.len() == 0 {
        JsonView::Null
    } else {
        match json::reading_bytes(bytes) {
            Some(v) => v,
            None => JsonView::Str(digest::lossy_text(bytes)),
        }
    }
}

/// The value of a response's body.
pub fn read_body(bytes: &Vec<u8>) -> (r: Json)
    ensures
        r@ == body_value(bytes@),
{
    if bytes.len() == 0 {
        return Json::Null;
    }
    match json::read_bytes(bytes) {
        Some(v) => v,
        None => Json::Str(digest::from_utf8_lossy(bytes.as_slice())),
    }
}

/// The answer to a call, from the status of the response and the value of its body.
pub fn invoke_result(request_id: String, status: u16, data: Json) -> (r: InvokeResult)
    ensures
        r@ == (InvokeView {
            request_id: request_id@,
            status,
            ok: 200 <= status < 300,
            data: data@,
        }),
{
    InvokeResult { request_id, status, ok: 200 <= status && status < 300, data }
}

/// A name never leads out of the interface: it holds no dot, no query and no empty
/// part.
pub proof fn names_stay_inside(s: Seq<char>, i: int)
    requires
        good_name(s),
        0 <= i < s.len(),
    ensures
        s[i] != '.',
        s[i] != '?',
        s[i] != '#',
        s[i] != ' ',
        i > 0 ==> !(s[i - 1] == '/' && s[i] == '/'),
{
    assert(name_char(s[i]));
    if i > 0 && s[i - 1] == '/' && s[i] == '/' {
        reveal_strlit("//");
        assert(s.subrange(i - 1, i + 1) =~= "//"@);
        assert(text::stands_at(s, "//"@, i - 1));
    }
}

} // verus!
