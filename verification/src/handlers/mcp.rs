//! The companion's tools over HTTP, for agents that cannot start the companion.
use vstd::prelude::*;
use crate::json;
use crate::json::{Json, JsonView};
use crate::text;

verus! {

/// The groups of tools that are offered.
pub const HTTP_FEATURES: &'static str = "uploads";

/// The version of the protocol.
pub const PROTOCOL_VERSION: &'static str = "2024-11-05";

/// The name of the companion.
pub const COMPANION_SERVER_NAME: &'static str = "myclaw";

/// The longest name of an agent in a path.
pub const MAX_SEGMENT_BYTES: usize = 48;

/// The codes of errors.
pub const METHOD_NOT_FOUND: i32 = -32601;

pub const INVALID_PARAMS: i32 = -32602;

pub const INTERNAL_ERROR: i32 = -32603;

/// The port of an instance that names none.
pub const DEFAULT_PORT: u16 = 3080;

/// The port that a setting names, or the usual one.
pub fn codeg_port(raw: Option<&str>) -> (r: u16)
    ensures
        r == match raw.deep_view() {
            Some(s) => match text::number(s) {
                Some(n) => if n <= u16::MAX {
                    n as u16
                } else {
                    DEFAULT_PORT
                },
                None => DEFAULT_PORT,
            },
            None => DEFAULT_PORT,
        },
{
    match raw {
        Some(s) => match text::parse_u64(s) {
            Some(n) => if n <= u16::MAX as u64 {
                n as u16
            } else {
                DEFAULT_PORT
            },
            None => DEFAULT_PORT,
        },
        None => DEFAULT_PORT,
    }
}

/// Whether a character is a small letter or a digit.
pub open spec fn plain(c: char) -> bool {
    'a' <= c <= 'z' || '0' <= c <= '9'
}

/// Whether a text can name an agent in a path and in a configuration: small letters,
/// digits, dashes and underscores, with a letter or a digit in front, and not too long.
pub open spec fn good_segment(s: Seq<char>) -> bool {
    &&& 0 < s.len() <= MAX_SEGMENT_BYTES
    &&& plain(s[0])
    &&& forall|i: int| 0 <= i < s.len() ==> plain(#[trigger] s[i]) || s[i] == '-' || s[i] == '_'
}

/// Whether a text can name an agent.
pub fn valid_agent_segment(s: &str) -> (r: bool)
    ensures
        r == good_segment(s@),
{
    let v = text::chars(s);
    if v.len() == 0 || v.len() > MAX_SEGMENT_BYTES {
        return false;
    }
    let first = v[0];
    if !(('a' <= first && first <= 'z') || ('0' <= first && first <= '9')) {
        return false;
    }
    for i in 0..v.len()
        invariant
            v@ == s@,
            forall|j: int|
                0 <= j < i ==> plain(#[trigger] v@[j]) || v@[j] == '-' || v@[j] == '_',
    {
        let c = v[i];
        if !(('a' <= c && c <= 'z') || ('0' <= c && c <= '9') || c == '-' || c == '_') {
            assert(s@[i as int] == c);
            return false;
        }
    }
    true
}

/// The groups of tools that are on.
#[derive(Clone, Copy, Debug, PartialEq, Eq, Structural)]
pub struct CompanionFeatures {
    pub uploads: bool,
}

/// Whether a group is among those that are named, with commas between them.
pub open spec fn names_group(raw: Option<Seq<char>>, group: Seq<char>) -> bool {
    raw matches Some(s) && text::split(s, ',').contains(group)
}

impl CompanionFeatures {
    /// The groups that are named.
    pub fn parse(raw: Option<&str>) -> (r: CompanionFeatures)
        ensures
            r.uploads == names_group(raw.deep_view(), "uploads"@),
    {
        match raw {
            Some(s) => CompanionFeatures {
                uploads: text::listed(&text::split_on(s, ','), "uploads"),
            },
            None => CompanionFeatures { uploads: false },
        }
    }

    /// Whether a tool is offered.
    pub open spec fn offers(self, name: Seq<char>) -> bool {
        self.uploads && name == "upload_file"@
    }

    /// Whether a tool is offered.
    pub fn allows_tool(&self, name: &str) -> (r: bool)
        ensures
            r == self.offers(name@),
    {
        self.uploads && text::same(name, "upload_file")
    }
}

/// A call. A notification has no id.
#[derive(Debug)]
pub struct RpcRequest {
    pub id: Option<Json>,
    pub method: String,
    pub params: Option<Json>,
}

/// An answer with a result.
pub open spec fn ok_envelope(id: JsonView, result: JsonView) -> JsonView {
    JsonView::empty_object().with("jsonrpc"@, JsonView::Str("2.0"@)).with("id"@, id).with(
        "result"@,
        result,
    )
}

/// An answer with an error.
pub open spec fn err_envelope(id: JsonView, code: i32, message: Seq<char>) -> JsonView {
    JsonView::empty_object().with("jsonrpc"@, JsonView::Str("2.0"@)).with("id"@, id).with(
        "error"@,
        JsonView::empty_object().with("code"@, JsonView::of_i64(code as i64)).with(
            "message"@,
            JsonView::Str(message),
        ),
    )
}

/// An answer with a result.
pub fn envelope_ok(id: Json, result: Json) -> (r: Json)
    ensures
        r@ == ok_envelope(id@, result@),
{
    Json::empty_object().with("jsonrpc", Json::of_str("2.0")).with("id", id).with("result", result)
}

/// An answer with an error.
pub fn envelope_err(id: Json, code: i32, message: &str) -> (r: Json)
    ensures
        r@ == err_envelope(id@, code, message@),
{
    Json::empty_object().with("jsonrpc", Json::of_str("2.0")).with("id", id).with(
        "error",
        Json::empty_object().with("code", Json::of_i64(code as i64)).with(
            "message",
            Json::of_str(message),
        ),
    )
}

/// What the companion says of itself.
pub open spec fn introduction(version: Seq<char>) -> JsonView {
    JsonView::empty_object().with("protocolVersion"@, JsonView::Str(PROTOCOL_VERSION@)).with(
        "serverInfo"@,
        JsonView::empty_object().with("name"@, JsonView::Str(COMPANION_SERVER_NAME@)).with(
            "version"@,
            JsonView::Str(version),
        ),
    ).with("capabilities"@, JsonView::empty_object().with("tools"@, JsonView::empty_object()))
}

/// What the companion says of itself.
pub fn initialize_result(version: &str) -> (r: Json)
    ensures
        r@ == introduction(version@),
{
    Json::empty_object().with("protocolVersion", Json::of_str(PROTOCOL_VERSION)).with(
        "serverInfo",
        Json::empty_object().with("name", Json::of_str(COMPANION_SERVER_NAME)).with(
            "version",
            Json::of_str(version),
        ),
    ).with("capabilities", Json::empty_object().with("tools", Json::empty_object()))
}

/// The tools that are offered, of all that there are.
pub open spec fn offered(all: Seq<JsonView>, features: CompanionFeatures) -> Seq<JsonView>
    decreases all.len(),
{
    if all.len() == 0 {
        Seq::empty()
    } else {
        let front = offered(all.drop_last(), features);
        match all.last().str_at("name"@) {
            Some(name) => if features.offers(name) {
                front.push(all.last())
            } else {
                front
            },
            None => front,
        }
    }
}

/// The list of the tools that are offered, from the text that describes all.
pub open spec fn tool_list(schema: Seq<char>, features: CompanionFeatures) -> Result<
    JsonView,
    Seq<char>,
> {
    match json::reading(schema) {
        Err(e) => Err("embedded schema invalid: "@ + e),
        Ok(all) => Ok(
            JsonView::empty_object().with(
                "tools"@,
                match all {
                    JsonView::Array(items) => JsonView::Array(offered(items, features)),
                    other => other,
                },
            ),
        ),
    }
}

/// The tools that are offered, of all that there are.
fn offer(items: &Vec<Json>, features: CompanionFeatures) -> (r: Json)
    ensures
        r@ == JsonView::Array(offered(items.deep_view(), features)),
{
    let ghost all = items.deep_view();
    let mut out: Vec<Json> = Vec::new();
    assert(out.deep_view() =~= offered(all.take(0), features));
    for i in 0..items.len()
        invariant
            all == items.deep_view(),
            out.deep_view() == offered(all.take(i as int), features),
    {
        let ghost before = out.deep_view();
        assert(all.take(i + 1).drop_last() =~= all.take(i as int));
        assert(all.take(i + 1).last() == items@[i as int]@);
        if let Some(name) = items[i].str_at("name") {
            if features.allows_tool(name) {
                out.push(items[i].copy());
                assert(out.deep_view() =~= before.push(items@[i as int]@));
            }
        }
    }
    assert(all.take(all.len() as int) =~= all);
    Json::of_vec(out)
}

/// The list of the tools that are offered, from what describes all.
pub fn list_tools(all: Json, features: CompanionFeatures) -> (r: Json)
    ensures
        r@ == JsonView::empty_object().with(
            "tools"@,
            match all@ {
                JsonView::Array(items) => JsonView::Array(offered(items, features)),
                other => other,
            },
        ),
{
    let tools = match &all {
        Json::Array(items) => {
            proof {
                json::array_content(*items);
            }
            offer(items, features)
        },
        _ => all,
    };
    Json::empty_object().with("tools", tools)
}

/// The list of the tools that are offered, from the text that describes all.
pub fn tools_list_result(schema: &str, features: CompanionFeatures) -> (r: Result<Json, String>)
    ensures
        match tool_list(schema@, features) {
            Ok(list) => r matches Ok(x) && x@ == list,
            Err(e) => r matches Err(x) && x@ == e,
        },
{
    match json::read_json(schema) {
        Err(e) => Err(text::cat2("embedded schema invalid: ", e.as_str())),
        Ok(all) => Ok(list_tools(all, features)),
    }
}

/// What a call of a tool leads to.
#[derive(Debug)]
pub enum ToolStep {
    /// This answer.
    Reply(Json),
    /// The upload of this file.
    Upload { path: String },
}

/// The content of a `ToolStep`.
#[verifier::ext_equal]
pub enum ToolStepView {
    Reply(JsonView),
    Upload { path: Seq<char> },
}

impl View for ToolStep {
    type V = ToolStepView;

    open spec fn view(&self) -> ToolStepView {
        match *self {
            ToolStep::Reply(r) => ToolStepView::Reply(r@),
            ToolStep::Upload { path } => ToolStepView::Upload { path: path@ },
        }
    }
}

/// The name of the tool that is called.
pub open spec fn tool_name(params: Option<JsonView>) -> Seq<char> {
    match params {
        Some(p) => match p.str_at("name"@) {
            Some(n) => n,
            None => Seq::empty(),
        },
        None => Seq::empty(),
    }
}

/// The file that is to be uploaded.
pub open spec fn upload_path(params: Option<JsonView>) -> Option<Seq<char>> {
    match params {
        Some(p) => match p.at("arguments"@).str_at("path"@) {
            Some(s) => if text::trim(s).len() > 0 {
                Some(text::trim(s))
            } else {
                None
            },
            None => None,
        },
        None => None,
    }
}

/// What a call of a tool leads to. A tool that is not offered and one that does not
/// exist get the same answer.
pub open spec fn called(id: JsonView, features: CompanionFeatures, params: Option<JsonView>) -> ToolStepView {
    let name = tool_name(params);
    if !features.offers(name) {
        ToolStepView::Reply(err_envelope(id, INVALID_PARAMS, "unknown tool: "@ + name))
    } else {
        match upload_path(params) {
            Some(path) => ToolStepView::Upload { path },
            None => ToolStepView::Reply(
                err_envelope(
                    id,
                    INVALID_PARAMS,
                    "upload_file requires a non-empty `path` string (the file to upload)"@,
                ),
            ),
        }
    }
}

/// What a call of a tool leads to.
pub fn call_tool(id: &Json, features: CompanionFeatures, params: &Option<Json>) -> (r: ToolStep)
    ensures
        r@ == called(id@, features, params.deep_view()),
{
    let name = match params {
        Some(p) => match p.str_at("name") {
            Some(n) => n.to_owned(),
            None => String::new(),
        },
        None => String::new(),
    };
    assert(name@ =~= tool_name(params.deep_view()));
    if !features.allows_tool(name.as_str()) {
        return ToolStep::Reply(
            envelope_err(
                id.copy(),
                INVALID_PARAMS,
                text::cat2("unknown tool: ", name.as_str()).as_str(),
            ),
        );
    }
    if let Some(p) = params {
        if let Some(s) = p.at("arguments").str_at("path") {
            let path = text::trimmed(s);
            if !path.as_str().is_empty() {
                return ToolStep::Upload { path };
            }
        }
    }
    ToolStep::Reply(
        envelope_err(
            id.copy(),
            INVALID_PARAMS,
            "upload_file requires a non-empty `path` string (the file to upload)",
        ),
    )
}

/// The result of an upload: the address alone, or the reason it failed.
pub open spec fn upload_result(words: Seq<char>, failed: bool) -> JsonView {
    JsonView::empty_object().with(
        "content"@,
        JsonView::Array(
            seq![
                JsonView::empty_object().with("type"@, JsonView::Str("text"@)).with(
                    "text"@,
                    JsonView::Str(words),
                ),
            ],
        ),
    ).with("isError"@, JsonView::Bool(failed))
}

/// The answer to an upload. A failure is a result of the tool, and no error of the
/// call.
pub fn upload_reply(id: &Json, outcome: Result<String, String>) -> (r: Json)
    ensures
        r@ == match outcome {
            Ok(url) => ok_envelope(id@, upload_result(url@, false)),
            Err(e) => ok_envelope(id@, upload_result(e@, true)),
        },
{
    let (words, failed) = match outcome {
        Ok(url) => (url, false),
        Err(e) => (e, true),
    };
    let content = Json::single(
        Json::empty_object().with("type", Json::of_str("text")).with(
            "text",
            Json::of_str(words.as_str()),
        ),
    );
    envelope_ok(
        id.copy(),
        Json::empty_object().with("content", content).with("isError", Json::Bool(failed)),
    )
}

/// What a request leads to.
#[derive(Debug)]
pub enum RpcStep {
    /// The path names no agent.
    BadRequest,
    /// A notification: there is no answer.
    Accepted,
    Reply(Json),
    /// The upload of a file, to be answered under the id.
    Upload { id: Json, path: String },
}

/// The content of an `RpcStep`.
#[verifier::ext_equal]
pub enum RpcStepView {
    BadRequest,
    Accepted,
    Reply(JsonView),
    Upload { id: JsonView, path: Seq<char> },
}

impl View for RpcStep {
    type V = RpcStepView;

    open spec fn view(&self) -> RpcStepView {
        match *self {
            RpcStep::BadRequest => RpcStepView::BadRequest,
            RpcStep::Accepted => RpcStepView::Accepted,
            RpcStep::Reply(r) => RpcStepView::Reply(r@),
            RpcStep::Upload { id, path } => RpcStepView::Upload { id: id@, path: path@ },
        }
    }
}

/// The groups that this transport offers.
pub open spec fn http_features() -> CompanionFeatures {
    CompanionFeatures { uploads: names_group(Some(HTTP_FEATURES@), "uploads"@) }
}

/// What a request leads to.
pub open spec fn answered(
    agent: Seq<char>,
    id: Option<JsonView>,
    method: Seq<char>,
    params: Option<JsonView>,
    schema: Seq<char>,
    version: Seq<char>,
) -> RpcStepView {
    if !good_segment(agent) {
        RpcStepView::BadRequest
    } else {
        match id {
            None => RpcStepView::Accepted,
            Some(id) => if method == "initialize"@ {
                RpcStepView::Reply(ok_envelope(id, introduction(version)))
            } else if method == "tools/list"@ {
                match tool_list(schema, http_features()) {
                    Ok(list) => RpcStepView::Reply(ok_envelope(id, list)),
                    Err(e) => RpcStepView::Reply(err_envelope(id, INTERNAL_ERROR, e)),
                }
            } else if method == "tools/call"@ {
                match called(id, http_features(), params) {
                    ToolStepView::Reply(r) => RpcStepView::Reply(r),
                    ToolStepView::Upload { path } => RpcStepView::Upload { id, path },
                }
            } else {
                RpcStepView::Reply(err_envelope(id, METHOD_NOT_FOUND, "method not found: "@ + method))
            },
        }
    }
}

/// What a request leads to. `schema` describes all tools there are, and `version` is
/// that of the companion.
pub fn rpc(agent: &str, req: RpcRequest, schema: &str, version: &str) -> (r: RpcStep)
    ensures
        r@ == answered(
            agent@,
            req.id.deep_view(),
            req.method@,
            req.params.deep_view(),
            schema@,
            version@,
        ),
{
    if !valid_agent_segment(agent) {
        return RpcStep::BadRequest;
    }
    let id = match req.id {
        Some(id) => id,
        None => {
            return RpcStep::Accepted;
        },
    };
    let features = CompanionFeatures::parse(Some(HTTP_FEATURES));
    assert(features == http_features());
    if text::same(req.method.as_str(), "initialize") {
        RpcStep::Reply(envelope_ok(id, initialize_result(version)))
    } else if text::same(req.method.as_str(), "tools/list") {
        match tools_list_result(schema, features) {
            Ok(list) => RpcStep::Reply(envelope_ok(id, list)),
            Err(e) => RpcStep::Reply(envelope_err(id, INTERNAL_ERROR, e.as_str())),
        }
    } else if text::same(req.method.as_str(), "tools/call") {
        match call_tool(&id, features, &req.params) {
            ToolStep::Reply(r) => RpcStep::Reply(r),
            ToolStep::Upload { path } => RpcStep::Upload { id, path },
        }
    } else {
        RpcStep::Reply(
            envelope_err(
                id,
                METHOD_NOT_FOUND,
                text::cat2("method not found: ", req.method.as_str()).as_str(),
            ),
        )
    }
}

/// The entry for an agent in the configuration of its runtime.
#[derive(Debug, PartialEq, Eq)]
pub struct McpEntry {
    /// The name of the entry, which no other agent has.
    pub name: String,
    pub transport: &'static str,
    pub url: String,
    pub headers: Vec<(String, String)>,
    pub features: Vec<String>,
    pub tools: Vec<String>,
}

/// The content of an `McpEntry`.
#[verifier::ext_equal]
pub struct EntryView {
    pub name: Seq<char>,
    pub transport: Seq<char>,
    pub url: Seq<char>,
    pub headers: Seq<(Seq<char>, Seq<char>)>,
    pub features: Seq<Seq<char>>,
    pub tools: Seq<Seq<char>>,
}

impl View for McpEntry {
    type V = EntryView;

    open spec fn view(&self) -> EntryView {
        EntryView {
            name: self.name@,
            transport: self.transport@,
            url: self.url@,
            headers: self.headers.deep_view(),
            features: self.features.deep_view(),
            tools: self.tools.deep_view(),
        }
    }
}

/// Why there is no entry.
#[derive(Debug, PartialEq, Eq)]
pub enum EntryError {
    /// The path names no agent.
    BadRequest,
    Internal(String),
}

/// The names of the tools in a list.
pub open spec fn tool_names(list: JsonView) -> Seq<Seq<char>> {
    match list.at("tools"@).as_array() {
        Some(items) => json::texts_at(items, "name"@),
        None => Seq::empty(),
    }
}

/// The entry for an agent, with the list of the tools.
pub open spec fn entry_for(agent: Seq<char>, auth: Option<Seq<char>>, port: u16, list: JsonView) -> EntryView {
    EntryView {
        name: COMPANION_SERVER_NAME@ + "-"@ + agent,
        transport: "streamable-http"@,
        url: "http://127.0.0.1:"@ + text::dec(port as nat) + "/api/myclaw/mcp/"@ + agent,
        headers: match auth {
            Some(a) => seq![("Authorization"@, a)],
            None => Seq::empty(),
        },
        features: text::split(HTTP_FEATURES@, ','),
        tools: tool_names(list),
    }
}

/// The entry for an agent. The caller's own credential, which is that of the instance,
/// is handed back in it.
pub fn entry(agent: &str, auth: Option<&str>, port: u16, schema: &str) -> (r: Result<
    McpEntry,
    EntryError,
>)
    ensures
        if !good_segment(agent@) {
            r matches Err(EntryError::BadRequest)
        } else {
            match tool_list(schema@, http_features()) {
                Ok(list) => r matches Ok(e) && e@ == entry_for(
                    agent@,
                    auth.deep_view(),
                    port,
                    list,
                ),
                Err(e) => r matches Err(EntryError::Internal(x)) && x@ == e,
            }
        },
{
    if !valid_agent_segment(agent) {
        return Err(EntryError::BadRequest);
    }
    let features = CompanionFeatures::parse(Some(HTTP_FEATURES));
    assert(features == http_features());
    let list = match tools_list_result(schema, features) {
        Ok(l) => l,
        Err(e) => {
            return Err(EntryError::Internal(e));
        },
    };
    let tools: Vec<String> = match list.at("tools").as_array() {
        Some(items) => json::collect_texts_at(items, "name"),
        None => Vec::new(),
    };
    assert(tools.deep_view() =~= tool_names(list@));
    let mut headers: Vec<(String, String)> = Vec::new();
    if let Some(a) = auth {
        headers.push(("Authorization".to_owned(), a.to_owned()));
    }
    assert(headers.deep_view() =~= match auth.deep_view() {
        Some(a) => seq![("Authorization"@, a)],
        None => Seq::empty(),
    });
    Ok(
        McpEntry {
            name: text::cat3(COMPANION_SERVER_NAME, "-", agent),
            transport: "streamable-http",
            url: text::cat4(
                "http://127.0.0.1:",
                text::dec_u64(port as u64).as_str(),
                "/api/myclaw/mcp/",
                agent,
            ),
            headers,
            features: text::split_on(HTTP_FEATURES, ','),
            tools,
        },
    )
}

/// A tool that is not offered is answered like one that does not exist, and nothing is
/// uploaded for it.
pub proof fn hidden_tools_are_unknown(id: JsonView, features: CompanionFeatures, params: Option<JsonView>)
    requires
        !features.offers(tool_name(params)),
    ensures
        called(id, features, params) == ToolStepView::Reply(
            err_envelope(id, INVALID_PARAMS, "unknown tool: "@ + tool_name(params)),
        ),
{
}

/// Every tool in a list is one that is offered.
pub proof fn lists_hold_only_offered_tools(all: Seq<JsonView>, features: CompanionFeatures, i: int)
    requires
        0 <= i < offered(all, features).len(),
    ensures
        offered(all, features)[i].str_at("name"@) matches Some(n) && features.offers(n),
    decreases all.len(),
{
    if all.len() > 0 && i < offered(all.drop_last(), features).len() {
        lists_hold_only_offered_tools(all.drop_last(), features, i);
    }
}

/// The name of an agent cannot change the path or the configuration that it stands in.
pub proof fn segments_are_plain(s: Seq<char>, i: int)
    requires
        good_segment(s),
        0 <= i < s.len(),
    ensures
        s[i] != '/',
        s[i] != '.',
        s[i] != '?',
        s[i] != ' ',
        s[i] != '"',
{
    assert(plain(s[i]) || s[i] == '-' || s[i] == '_');
}

} // verus!
