//! What the tool server answers.
use vstd::prelude::*;
use crate::handlers::mcp;
use crate::handlers::mcp::{CompanionFeatures, EntryView, RpcStepView};
use crate::json;
use crate::json::JsonView;
use crate::json_laws;
use crate::text;
use crate::text_laws;

verus! {

/// An answer that succeeded, as the caller gets it.
pub open spec fn answers(id: JsonView, result: JsonView) -> JsonView {
    JsonView::Object(
        seq![("jsonrpc"@, JsonView::Str("2.0"@)), ("id"@, id), ("result"@, result)],
    )
}

/// An answer that failed, as the caller gets it.
pub open spec fn refuses(id: JsonView, code: int, message: Seq<char>) -> JsonView {
    JsonView::Object(
        seq![
            ("jsonrpc"@, JsonView::Str("2.0"@)),
            ("id"@, id),
            (
                "error"@,
                JsonView::Object(
                    seq![("code"@, JsonView::of_i64(code as i64)), ("message"@, JsonView::Str(message))],
                ),
            ),
        ],
    )
}

/// The form of the answers.
proof fn answers_have_this_form(id: JsonView, result: JsonView, code: i32, message: Seq<char>)
    ensures
        mcp::ok_envelope(id, result) == answers(id, result),
        mcp::err_envelope(id, code, message) == refuses(id, code as int, message),
{
    assert(mcp::ok_envelope(id, result)->Object_0 =~= answers(id, result)->Object_0);
    let why = JsonView::empty_object().with("code"@, JsonView::of_i64(code as i64)).with(
        "message"@,
        JsonView::Str(message),
    );
    assert(why->Object_0 =~= seq![
        ("code"@, JsonView::of_i64(code as i64)),
        ("message"@, JsonView::Str(message)),
    ]);
    assert(mcp::err_envelope(id, code, message)->Object_0 =~= refuses(
        id,
        code as int,
        message,
    )->Object_0);
}

/// A path names an agent by one to forty-eight lower letters, digits, hyphens and
/// underscores, the first of which is a letter or a digit; any other path is a bad request.
pub proof fn agents_are_named_plainly(
    agent: Seq<char>,
    id: Option<JsonView>,
    method: Seq<char>,
    params: Option<JsonView>,
    schema: Seq<char>,
    version: Seq<char>,
)
    ensures
        (mcp::answered(agent, id, method, params, schema, version) == RpcStepView::BadRequest) <==> !(
        1 <= agent.len() <= 48 && agent[0] != '-' && agent[0] != '_' && forall|i: int|
            0 <= i < agent.len() ==> ('a' <= #[trigger] agent[i] <= 'z' || '0' <= agent[i] <= '9'
                || agent[i] == '-' || agent[i] == '_')),
{
    if 1 <= agent.len() <= 48 && agent[0] != '-' && agent[0] != '_' && forall|i: int|
        0 <= i < agent.len() ==> ('a' <= #[trigger] agent[i] <= 'z' || '0' <= agent[i] <= '9'
            || agent[i] == '-' || agent[i] == '_') {
        assert(mcp::plain(agent[0]));
        assert(mcp::good_segment(agent));
    }
    if mcp::good_segment(agent) {
        assert(mcp::plain(agent[0]));
        assert forall|i: int| 0 <= i < agent.len() implies ('a' <= #[trigger] agent[i] <= 'z' || '0'
            <= agent[i] <= '9' || agent[i] == '-' || agent[i] == '_') by {
            assert(mcp::plain(agent[i]) || agent[i] == '-' || agent[i] == '_');
        }
    }
}

/// The methods are three different names.
proof fn methods_are_apart()
    ensures
        "initialize"@ != "tools/list"@,
        "initialize"@ != "tools/call"@,
        "tools/list"@ != "tools/call"@,
{
    reveal_strlit("initialize");
    reveal_strlit("tools/list");
    reveal_strlit("tools/call");
    assert("initialize"@[0] == 'i');
    assert("tools/list"@[0] == 't');
    assert("tools/call"@[0] == 't');
    assert("tools/list"@[6] == 'l');
    assert("tools/call"@[6] == 'c');
}

/// The uploads are on where the server is reached over the network.
proof fn uploads_are_on()
    ensures
        mcp::http_features().uploads,
{
    reveal_strlit("uploads");
    let s = "uploads"@;
    assert(s.len() == 7);
    assert(!s.contains(','));
    text_laws::splitting_leaves_one(s, ',');
    assert(text::split(s, ',')[0] == s);
}

/// A request without an id gets no answer. `initialize` is answered with the version of the
/// protocol, the name of the server, its version and that it has tools. A method that is
/// none of the three is refused by its name. Each answer bears the id of its request.
pub proof fn requests_are_answered(
    agent: Seq<char>,
    id: JsonView,
    method: Seq<char>,
    params: Option<JsonView>,
    schema: Seq<char>,
    version: Seq<char>,
)
    requires
        mcp::good_segment(agent),
    ensures
        mcp::answered(agent, None, method, params, schema, version) == RpcStepView::Accepted,
        mcp::answered(agent, Some(id), "initialize"@, params, schema, version)
            == RpcStepView::Reply(
            answers(
                id,
                JsonView::Object(
                    seq![
                        ("protocolVersion"@, JsonView::Str("2024-11-05"@)),
                        (
                            "serverInfo"@,
                            JsonView::Object(
                                seq![
                                    ("name"@, JsonView::Str("myclaw"@)),
                                    ("version"@, JsonView::Str(version)),
                                ],
                            ),
                        ),
                        (
                            "capabilities"@,
                            JsonView::Object(seq![("tools"@, JsonView::Object(seq![]))]),
                        ),
                    ],
                ),
            ),
        ),
        method != "initialize"@ && method != "tools/list"@ && method != "tools/call"@
            ==> mcp::answered(agent, Some(id), method, params, schema, version)
            == RpcStepView::Reply(refuses(id, -32601, "method not found: "@ + method)),
{
    methods_are_apart();
    let info = JsonView::empty_object().with("name"@, JsonView::Str("myclaw"@)).with(
        "version"@,
        JsonView::Str(version),
    );
    assert(info->Object_0 =~= seq![
        ("name"@, JsonView::Str("myclaw"@)),
        ("version"@, JsonView::Str(version)),
    ]);
    let tools = JsonView::empty_object().with("tools"@, JsonView::empty_object());
    assert(JsonView::empty_object()->Object_0 =~= seq![]);
    assert(tools->Object_0 =~= seq![("tools"@, JsonView::Object(seq![]))]);
    assert(mcp::introduction(version)->Object_0 =~= seq![
        ("protocolVersion"@, JsonView::Str("2024-11-05"@)),
        ("serverInfo"@, info),
        ("capabilities"@, tools),
    ]);
    answers_have_this_form(
        id,
        mcp::introduction(version),
        mcp::METHOD_NOT_FOUND,
        "method not found: "@ + method,
    );
}

/// The tools of a list are told one after the other: one that is named `upload_file` is told
/// as it is where uploads are on, and no other.
pub proof fn the_upload_is_offered(front: Seq<JsonView>, tool: JsonView, features: CompanionFeatures)
    ensures
        mcp::offered(Seq::empty(), features).len() == 0,
        mcp::offered(front.push(tool), features) == mcp::offered(front, features) + if features.uploads
            && tool.at("name"@) == JsonView::Str("upload_file"@) {
            seq![tool]
        } else {
            seq![]
        },
{
    assert(front.push(tool).drop_last() =~= front);
    let a = mcp::offered(front, features);
    assert(a.push(tool) =~= a + seq![tool]);
    assert(a =~= a + seq![]);
}

/// `tools/list` is answered with the tools of the schema that the server offers, in their
/// order; a schema that cannot be read is an error of the server that says why.
pub proof fn tools_are_listed(
    agent: Seq<char>,
    id: JsonView,
    params: Option<JsonView>,
    schema: Seq<char>,
    version: Seq<char>,
    items: Seq<JsonView>,
    why: Seq<char>,
)
    requires
        mcp::good_segment(agent),
    ensures
        json::reading(schema) == Ok::<JsonView, Seq<char>>(JsonView::Array(items)) ==> mcp::answered(
            agent,
            Some(id),
            "tools/list"@,
            params,
            schema,
            version,
        ) == RpcStepView::Reply(
            answers(
                id,
                JsonView::Object(
                    seq![
                        (
                            "tools"@,
                            JsonView::Array(
                                mcp::offered(items, CompanionFeatures { uploads: true }),
                            ),
                        ),
                    ],
                ),
            ),
        ),
        json::reading(schema) == Err::<JsonView, Seq<char>>(why) ==> mcp::answered(
            agent,
            Some(id),
            "tools/list"@,
            params,
            schema,
            version,
        ) == RpcStepView::Reply(refuses(id, -32603, "embedded schema invalid: "@ + why)),
{
    methods_are_apart();
    uploads_are_on();
    assert(mcp::http_features() == CompanionFeatures { uploads: true });
    let listed = JsonView::Array(mcp::offered(items, CompanionFeatures { uploads: true }));
    let list = JsonView::empty_object().with("tools"@, listed);
    assert(list->Object_0 =~= seq![("tools"@, listed)]);
    answers_have_this_form(id, list, mcp::INTERNAL_ERROR, "embedded schema invalid: "@ + why);
}

/// A call of `upload_file` with a path asks for the upload of that path, without the white
/// space around it, under the id of the request.
pub proof fn uploads_are_asked_for(
    agent: Seq<char>,
    id: JsonView,
    params: JsonView,
    path: Seq<char>,
    schema: Seq<char>,
    version: Seq<char>,
)
    requires
        mcp::good_segment(agent),
        params.at("name"@) == JsonView::Str("upload_file"@),
        params.at("arguments"@).at("path"@) == JsonView::Str(path),
    ensures
        text::trim(path).len() > 0 ==> mcp::answered(
            agent,
            Some(id),
            "tools/call"@,
            Some(params),
            schema,
            version,
        ) == (RpcStepView::Upload { id, path: text::trim(path) }),
        text::trim(path).len() == 0 ==> mcp::answered(
            agent,
            Some(id),
            "tools/call"@,
            Some(params),
            schema,
            version,
        ) == RpcStepView::Reply(
            refuses(
                id,
                -32602,
                "upload_file requires a non-empty `path` string (the file to upload)"@,
            ),
        ),
{
    methods_are_apart();
    uploads_are_on();
    answers_have_this_form(
        id,
        params,
        mcp::INVALID_PARAMS,
        "upload_file requires a non-empty `path` string (the file to upload)"@,
    );
}

/// A call without a path is refused, and so is one of a tool that there is not, by its name.
pub proof fn odd_calls_are_refused(
    agent: Seq<char>,
    id: JsonView,
    params: JsonView,
    name: Seq<char>,
    schema: Seq<char>,
    version: Seq<char>,
)
    requires
        mcp::good_segment(agent),
        params.at("name"@) == JsonView::Str(name),
    ensures
        name != "upload_file"@ ==> mcp::answered(
            agent,
            Some(id),
            "tools/call"@,
            Some(params),
            schema,
            version,
        ) == RpcStepView::Reply(refuses(id, -32602, "unknown tool: "@ + name)),
        name == "upload_file"@ && !(params.at("arguments"@).at("path"@) is Str) ==> mcp::answered(
            agent,
            Some(id),
            "tools/call"@,
            Some(params),
            schema,
            version,
        ) == RpcStepView::Reply(
            refuses(
                id,
                -32602,
                "upload_file requires a non-empty `path` string (the file to upload)"@,
            ),
        ),
{
    methods_are_apart();
    uploads_are_on();
    answers_have_this_form(
        id,
        params,
        mcp::INVALID_PARAMS,
        "upload_file requires a non-empty `path` string (the file to upload)"@,
    );
    answers_have_this_form(id, params, mcp::INVALID_PARAMS, "unknown tool: "@ + name);
}

/// The words of an upload are its only content, marked as text, with whether it failed.
pub proof fn uploads_are_reported(words: Seq<char>, failed: bool)
    ensures
        mcp::upload_result(words, failed) == JsonView::Object(
            seq![
                (
                    "content"@,
                    JsonView::Array(
                        seq![
                            JsonView::Object(
                                seq![
                                    ("type"@, JsonView::Str("text"@)),
                                    ("text"@, JsonView::Str(words)),
                                ],
                            ),
                        ],
                    ),
                ),
                ("isError"@, JsonView::Bool(failed)),
            ],
        ),
{
    let item = JsonView::empty_object().with("type"@, JsonView::Str("text"@)).with(
        "text"@,
        JsonView::Str(words),
    );
    assert(item->Object_0 =~= seq![
        ("type"@, JsonView::Str("text"@)),
        ("text"@, JsonView::Str(words)),
    ]);
    assert(mcp::upload_result(words, failed)->Object_0 =~= seq![
        ("content"@, JsonView::Array(seq![item])),
        ("isError"@, JsonView::Bool(failed)),
    ]);
}

/// The entry of an agent: a name of its own, the address of the server on this machine with
/// the agent in its path, the authorization as it came, and the tools by their names.
pub proof fn entries_lead_to_the_server(
    agent: Seq<char>,
    auth: Seq<char>,
    port: u16,
    items: Seq<JsonView>,
)
    ensures
        mcp::entry_for(
            agent,
            Some(auth),
            port,
            JsonView::Object(seq![("tools"@, JsonView::Array(items))]),
        ) == (EntryView {
            name: "myclaw"@ + "-"@ + agent,
            transport: "streamable-http"@,
            url: "http://127.0.0.1:"@ + text::dec(port as nat) + "/api/myclaw/mcp/"@ + agent,
            headers: seq![("Authorization"@, auth)],
            features: seq!["uploads"@],
            tools: json::texts_at(items, "name"@),
        }),
        mcp::entry_for(
            agent,
            None,
            port,
            JsonView::Object(seq![("tools"@, JsonView::Array(items))]),
        ).headers.len() == 0,
{
    reveal_strlit("uploads");
    assert(!"uploads"@.contains(','));
    text_laws::splitting_leaves_one("uploads"@, ',');
    let list = seq![("tools"@, JsonView::Array(items))];
    json_laws::members_are_found(list, "tools"@, 0);
}

/// A schema that is no list is told as it is; the tools of an entry are the names of those
/// that are listed.
pub proof fn odd_schemas_are_told_as_they_are(
    schema: Seq<char>,
    v: JsonView,
    features: CompanionFeatures,
)
    requires
        json::reading(schema) == Ok::<JsonView, Seq<char>>(v),
        !(v is Array),
    ensures
        mcp::tool_list(schema, features) == Ok::<JsonView, Seq<char>>(
            JsonView::Object(seq![("tools"@, v)]),
        ),
        mcp::tool_names(JsonView::Object(seq![("tools"@, v)])).len() == 0,
{
    let list = JsonView::empty_object().with("tools"@, v);
    assert(list->Object_0 =~= seq![("tools"@, v)]);
    json_laws::members_are_found(seq![("tools"@, v)], "tools"@, 0);
}

} // verus!
