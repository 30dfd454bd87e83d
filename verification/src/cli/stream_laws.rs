//! What the events of a stream-JSON turn tell of its frames.
use vstd::prelude::*;
use crate::cli::outcome::OutcomeView;
use crate::cli::stream_json;
use crate::cli::stream_json::{events_of, MapperView};
use crate::cli::tool_info;
use crate::events::EventView;
use crate::json;
use crate::json::JsonView;
use crate::text;
use crate::text_laws;

verus! {

/// Whether a frame is of a kind.
pub open spec fn is_frame(v: JsonView, kind: Seq<char>) -> bool {
    v.at("type"@) == JsonView::Str(kind)
}

/// The blocks of a frame.
pub open spec fn content(v: JsonView) -> JsonView {
    v.at("message"@).at("content"@)
}

/// The tool call that a frame belongs to, if it belongs to one.
pub open spec fn owner(v: JsonView) -> Option<Seq<char>> {
    match v.at("parent_tool_use_id"@) {
        JsonView::Str(s) => Some(s),
        _ => None,
    }
}

/// Whether an event tells the outcome of a tool call, with a text as its output.
pub open spec fn tells(e: EventView, id: Seq<char>, status: Seq<char>, output: Seq<char>) -> bool {
    e == EventView::ToolCallUpdate {
        tool_name: None,
        description: None,
        tool_call_id: id,
        title: None,
        status: Some(status),
        content: None,
        raw_input: None,
        raw_output: Some(json::written(JsonView::Str(output))),
        raw_output_append: None,
        locations: None,
        meta: None,
        images: None,
    }
}

/// Whether a block is the result of a tool call.
pub open spec fn is_result(block: JsonView, id: Seq<char>) -> bool {
    block.at("type"@) == JsonView::Str("tool_result"@) && block.at("tool_use_id"@) == JsonView::Str(
        id,
    )
}

/// The result of a tool call is told under its id: an error as a failure, the launch of a
/// background call as progress, any other as completed. Its output is the text of the
/// result: a plain text, or the text of the one part that there is, is the same output, and
/// nothing at all is the empty text.
pub proof fn results_are_told(m: MapperView, v: JsonView, block: JsonView, id: Seq<char>, s: Seq<char>)
    requires
        is_frame(v, "user"@),
        content(v) == JsonView::Array(seq![block]),
        is_result(block, id),
    ensures
        ({
            let (next, outcome) = stream_json::step(m, v);
            let events = events_of(outcome);
            let status = if block.at("is_error"@) == JsonView::Bool(true) {
                "failed"@
            } else if m.background_tools.contains(id) {
                "in_progress"@
            } else {
                "completed"@
            };
            &&& next == m
            &&& outcome is Events
            &&& events.len() == 1
            &&& block.at("content"@) == JsonView::Str(s) ==> tells(events[0], id, status, s)
            &&& block.at("content"@) matches JsonView::Array(parts) ==> {
                &&& parts.len() == 1 && parts[0].at("text"@) == JsonView::Str(s) ==> tells(
                    events[0],
                    id,
                    status,
                    s,
                )
                &&& tells(events[0], id, status, stream_json::result_text(JsonView::Array(parts)))
            }
            &&& block.at("content"@) == JsonView::Null ==> tells(
                events[0],
                id,
                status,
                Seq::empty(),
            )
            &&& block.at("content"@) is Object || block.at("content"@) is Number || block.at(
                "content"@,
            ) is Bool ==> tells(events[0], id, status, json::written(block.at("content"@)))
        }),
{
    stream_json::kinds_are_distinct();
    let blocks = seq![block];
    reveal_with_fuel(stream_json::results, 2);
    assert(blocks.drop_last() =~= Seq::empty());
    if let JsonView::Array(parts) = block.at("content"@) {
        if parts.len() == 1 && parts[0].at("text"@) == JsonView::Str(s) {
            reveal_with_fuel(json::texts_at, 2);
            assert(parts.drop_last() =~= Seq::empty());
            assert(json::texts_at(parts, "text"@) =~= seq![s]);
        }
    }
}

/// The output of a tool result holds all its texts: one more part with a text stands behind
/// the others on a line of its own, and a part without one adds nothing.
pub proof fn outputs_hold_every_text(parts: Seq<JsonView>, part: JsonView)
    ensures
        ({
            let before = stream_json::result_text(JsonView::Array(parts));
            let now = stream_json::result_text(JsonView::Array(parts.push(part)));
            let any = exists|i: int| 0 <= i < parts.len() && (#[trigger] parts[i]).at("text"@) is Str;
            match part.at("text"@) {
                JsonView::Str(s) => now == if any {
                    before + seq!['\n'] + s
                } else {
                    s
                },
                _ => now == before,
            }
        }),
        stream_json::result_text(JsonView::Array(Seq::empty())) == Seq::<char>::empty(),
{
    reveal_strlit("\n");
    assert("\n"@ =~= seq!['\n']);
    assert(parts.push(part).drop_last() =~= parts);
    let said = json::texts_at(parts, "text"@);
    texts_are_there(parts);
    if let JsonView::Str(s) = part.at("text"@) {
        assert(json::texts_at(parts.push(part), "text"@) == said.push(s));
        text_laws::joining_adds_up(said, seq![s], seq!['\n']);
        assert(said + seq![s] =~= said.push(s));
        if said.len() == 0 {
            assert(said.push(s) =~= seq![s]);
        }
    }
}

/// Texts are found among parts where some part has one.
proof fn texts_are_there(parts: Seq<JsonView>)
    ensures
        json::texts_at(parts, "text"@).len() > 0 <==> exists|i: int|
            0 <= i < parts.len() && (#[trigger] parts[i]).at("text"@) is Str,
    decreases parts.len(),
{
    if parts.len() > 0 {
        let front = parts.drop_last();
        texts_are_there(front);
        if exists|i: int| 0 <= i < front.len() && (#[trigger] front[i]).at("text"@) is Str {
            let i = choose|i: int| 0 <= i < front.len() && (#[trigger] front[i]).at("text"@) is Str;
            assert(parts[i].at("text"@) is Str);
        }
        if parts.last().at("text"@) is Str {
            assert(parts[parts.len() - 1].at("text"@) is Str);
        }
        if exists|i: int| 0 <= i < parts.len() && (#[trigger] parts[i]).at("text"@) is Str {
            let i = choose|i: int| 0 <= i < parts.len() && (#[trigger] parts[i]).at("text"@) is Str;
            if i < front.len() {
                assert(front[i].at("text"@) is Str);
            }
        }
    }
}

/// The results of two lists of blocks.
proof fn results_add_up(m: MapperView, a: Seq<JsonView>, b: Seq<JsonView>)
    ensures
        stream_json::results(m, a + b) == stream_json::results(m, a) + stream_json::results(m, b),
    decreases b.len(),
{
    if b.len() == 0 {
        assert(a + b =~= a);
        assert(stream_json::results(m, a) + stream_json::results(m, b) =~= stream_json::results(m, a));
    } else {
        assert((a + b).drop_last() =~= a + b.drop_last());
        results_add_up(m, a, b.drop_last());
        assert(stream_json::results(m, a + b) =~= stream_json::results(m, a)
            + stream_json::results(m, b));
    }
}

/// The blocks of an `assistant` frame are mapped one after the other.
proof fn whole_blocks_add_up(m: MapperView, p: Option<Seq<char>>, a: Seq<JsonView>, b: Seq<JsonView>)
    ensures
        ({
            let first = stream_json::whole_blocks(m, p, a);
            let second = stream_json::whole_blocks(first.0, p, b);
            stream_json::whole_blocks(m, p, a + b) == (second.0, first.1 + second.1)
        }),
    decreases b.len(),
{
    let first = stream_json::whole_blocks(m, p, a);
    if b.len() == 0 {
        assert(a + b =~= a);
        assert(first.1 + Seq::<EventView>::empty() =~= first.1);
    } else {
        assert((a + b).drop_last() =~= a + b.drop_last());
        whole_blocks_add_up(m, p, a, b.drop_last());
        let second = stream_json::whole_blocks(first.0, p, b);
        assert(stream_json::whole_blocks(m, p, a + b).1 =~= first.1 + second.1);
    }
}

/// Frames add up: what a frame with two lists of blocks tells is what a frame with the
/// first tells, and then what one with the second does.
pub proof fn blocks_are_told_in_order(
    m: MapperView,
    first: JsonView,
    second: JsonView,
    both: JsonView,
    a: Seq<JsonView>,
    b: Seq<JsonView>,
)
    requires
        is_frame(first, "user"@) && is_frame(second, "user"@) && is_frame(both, "user"@)
            || is_frame(first, "assistant"@) && is_frame(second, "assistant"@) && is_frame(
            both,
            "assistant"@,
        ),
        owner(first) == owner(both),
        owner(second) == owner(both),
        content(first) == JsonView::Array(a),
        content(second) == JsonView::Array(b),
        content(both) == JsonView::Array(a + b),
    ensures
        ({
            let (mid, one) = stream_json::step(m, first);
            let (end, two) = stream_json::step(mid, second);
            stream_json::step(m, both) == (end, OutcomeView::Events(events_of(one) + events_of(two)))
        }),
{
    stream_json::kinds_are_distinct();
    results_add_up(m, a, b);
    whole_blocks_add_up(m, owner(both), a, b);
}

/// The names of what streams are told apart.
proof fn streams_are_apart()
    ensures
        "content_block_start"@ != "content_block_delta"@,
        "text_delta"@ != "thinking_delta"@,
        "text"@ != "thinking"@,
        "tool_use"@ != "text"@,
        "tool_use"@ != "thinking"@,
{
    reveal_strlit("content_block_start");
    reveal_strlit("content_block_delta");
    reveal_strlit("text_delta");
    reveal_strlit("thinking_delta");
    reveal_strlit("text");
    reveal_strlit("thinking");
    reveal_strlit("tool_use");
    assert("content_block_start"@[14] == 's' && "content_block_delta"@[14] == 'd');
    assert("text_delta"@.len() == 10 && "thinking_delta"@.len() == 14 && "text"@.len() == 4
        && "thinking"@.len() == 8 && "tool_use"@.len() == 8);
    assert("thinking"@[1] == 'h' && "tool_use"@[1] == 'o');
}

/// What streams is shown as it comes: a piece of text as text, a piece of thinking as
/// thinking, each as one event of the thread it belongs to.
pub proof fn pieces_are_shown_as_they_come(m: MapperView, v: JsonView, s: Seq<char>)
    requires
        is_frame(v, "stream_event"@),
        v.at("event"@).at("type"@) == JsonView::Str("content_block_delta"@),
        s.len() > 0,
    ensures
        ({
            let delta = v.at("event"@).at("delta"@);
            let (next, outcome) = stream_json::step(m, v);
            &&& delta.at("type"@) == JsonView::Str("text_delta"@) && delta.at("text"@)
                == JsonView::Str(s) ==> outcome == OutcomeView::Events(
                seq![EventView::ContentDelta { text: s, parent_tool_use_id: owner(v) }],
            ) && next.streamed.contains(owner(v))
            &&& delta.at("type"@) == JsonView::Str("thinking_delta"@) && delta.at("thinking"@)
                == JsonView::Str(s) ==> outcome == OutcomeView::Events(
                seq![EventView::Thinking { text: s, parent_tool_use_id: owner(v) }],
            ) && next.streamed.contains(owner(v))
        }),
{
    stream_json::kinds_are_distinct();
    streams_are_apart();
}

/// A block that was not streamed is shown whole: text as text, thinking as thinking, once.
pub proof fn whole_blocks_are_shown(m: MapperView, v: JsonView, block: JsonView, s: Seq<char>)
    requires
        is_frame(v, "assistant"@),
        content(v) == JsonView::Array(seq![block]),
        s.len() > 0,
    ensures
        ({
            let (next, outcome) = stream_json::step(m, v);
            let seen = m.streamed.contains(owner(v));
            &&& block.at("type"@) == JsonView::Str("text"@) && block.at("text"@) == JsonView::Str(s)
                ==> outcome == OutcomeView::Events(
                if seen {
                    Seq::empty()
                } else {
                    seq![EventView::ContentDelta { text: s, parent_tool_use_id: owner(v) }]
                },
            ) && !next.streamed.contains(owner(v))
            &&& block.at("type"@) == JsonView::Str("thinking"@) && block.at("thinking"@)
                == JsonView::Str(s) ==> outcome == OutcomeView::Events(
                if seen {
                    Seq::empty()
                } else {
                    seq![EventView::Thinking { text: s, parent_tool_use_id: owner(v) }]
                },
            ) && !next.streamed.contains(owner(v))
        }),
{
    stream_json::kinds_are_distinct();
    streams_are_apart();
    let blocks = seq![block];
    reveal_with_fuel(stream_json::whole_blocks, 2);
    assert(blocks.drop_last() =~= Seq::empty());
    let last = stream_json::whole_block(m, owner(v), block);
    assert(Seq::<EventView>::empty() + last.1 =~= last.1);
}

/// The blocks of one frame say only what its text blocks hold, and think only what its
/// thinking blocks do.
proof fn blocks_say_their_texts(m: MapperView, p: Option<Seq<char>>, blocks: Seq<JsonView>, i: int)
    requires
        0 <= i < stream_json::whole_blocks(m, p, blocks).1.len(),
    ensures
        stream_json::whole_blocks(m, p, blocks).1[i] matches EventView::ContentDelta { text, .. }
            ==> exists|k: int|
            0 <= k < blocks.len() && (#[trigger] blocks[k]).at("type"@) == JsonView::Str("text"@)
                && blocks[k].at("text"@) == JsonView::Str(text),
        stream_json::whole_blocks(m, p, blocks).1[i] matches EventView::Thinking { text, .. }
            ==> exists|k: int|
            0 <= k < blocks.len() && (#[trigger] blocks[k]).at("type"@) == JsonView::Str(
                "thinking"@,
            ) && blocks[k].at("thinking"@) == JsonView::Str(text),
    decreases blocks.len(),
{
    streams_are_apart();
    let front = blocks.drop_last();
    let before = stream_json::whole_blocks(m, p, front);
    let all = stream_json::whole_blocks(m, p, blocks).1;
    if i < before.1.len() {
        blocks_say_their_texts(m, p, front, i);
        assert(all[i] == before.1[i]);
        if let EventView::ContentDelta { text, .. } = all[i] {
            let k = choose|k: int|
                0 <= k < front.len() && (#[trigger] front[k]).at("type"@) == JsonView::Str("text"@)
                    && front[k].at("text"@) == JsonView::Str(text);
            assert(blocks[k] == front[k]);
        }
        if let EventView::Thinking { text, .. } = all[i] {
            let k = choose|k: int|
                0 <= k < front.len() && (#[trigger] front[k]).at("type"@) == JsonView::Str(
                    "thinking"@,
                ) && front[k].at("thinking"@) == JsonView::Str(text);
            assert(blocks[k] == front[k]);
        }
    } else {
        let last = stream_json::whole_block(before.0, p, blocks.last());
        assert(all[i] == last.1[i - before.1.len()]);
        assert(blocks[blocks.len() - 1] == blocks.last());
    }
}

/// Nothing is said or thought that the agent did not say or think: an event with text comes
/// from a piece or a block of text that holds it, and one with a thought from a piece or a
/// block of thinking.
pub proof fn text_and_thoughts_keep_apart(m: MapperView, v: JsonView, i: int)
    requires
        0 <= i < events_of(stream_json::step(m, v).1).len(),
    ensures
        events_of(stream_json::step(m, v).1)[i] matches EventView::ContentDelta {
            text,
            parent_tool_use_id,
        } ==> parent_tool_use_id == owner(v) && (v.at("event"@).at("delta"@).at("text"@)
            == JsonView::Str(text) || (content(v) is Array && exists|k: int|
            0 <= k < content(v)->Array_0.len() && (#[trigger] content(v)->Array_0[k]).at("type"@)
                == JsonView::Str("text"@) && content(v)->Array_0[k].at("text"@) == JsonView::Str(
                text,
            ))),
        events_of(stream_json::step(m, v).1)[i] matches EventView::Thinking {
            text,
            parent_tool_use_id,
        } ==> parent_tool_use_id == owner(v) && (v.at("event"@).at("delta"@).at("thinking"@)
            == JsonView::Str(text) || (content(v) is Array && exists|k: int|
            0 <= k < content(v)->Array_0.len() && (#[trigger] content(v)->Array_0[k]).at("type"@)
                == JsonView::Str("thinking"@) && content(v)->Array_0[k].at("thinking"@)
                == JsonView::Str(text))),
{
    stream_json::kinds_are_distinct();
    streams_are_apart();
    if is_frame(v, "assistant"@) {
        if let JsonView::Array(blocks) = content(v) {
            blocks_say_their_texts(m, owner(v), blocks, i);
            owners_are_named(m, owner(v), blocks, i);
        }
    }
    if is_frame(v, "user"@) {
        if let JsonView::Array(blocks) = content(v) {
            results_are_news(m, blocks, i);
        }
    }
}

/// What a frame says belongs to the thread of the frame.
proof fn owners_are_named(m: MapperView, p: Option<Seq<char>>, blocks: Seq<JsonView>, i: int)
    requires
        0 <= i < stream_json::whole_blocks(m, p, blocks).1.len(),
    ensures
        stream_json::whole_blocks(m, p, blocks).1[i] matches EventView::ContentDelta {
            parent_tool_use_id,
            ..
        } ==> parent_tool_use_id == p,
        stream_json::whole_blocks(m, p, blocks).1[i] matches EventView::Thinking {
            parent_tool_use_id,
            ..
        } ==> parent_tool_use_id == p,
    decreases blocks.len(),
{
    let front = blocks.drop_last();
    let before = stream_json::whole_blocks(m, p, front);
    let all = stream_json::whole_blocks(m, p, blocks).1;
    if i < before.1.len() {
        owners_are_named(m, p, front, i);
        assert(all[i] == before.1[i]);
    } else {
        let last = stream_json::whole_block(before.0, p, blocks.last());
        assert(all[i] == last.1[i - before.1.len()]);
    }
}

/// The results of tool calls are news of tool calls.
proof fn results_are_news(m: MapperView, blocks: Seq<JsonView>, i: int)
    requires
        0 <= i < stream_json::results(m, blocks).len(),
    ensures
        stream_json::results(m, blocks)[i] is ToolCallUpdate,
    decreases blocks.len(),
{
    let front = stream_json::results(m, blocks.drop_last());
    if i < front.len() {
        results_are_news(m, blocks.drop_last(), i);
        assert(stream_json::results(m, blocks)[i] == front[i]);
    }
}

/// A tool call is announced when its block starts, without its input, and is in progress
/// once its input is known: the card is then told the title and the input as JSON. One
/// that was not announced is announced with both.
pub proof fn tool_calls_are_told(
    m: MapperView,
    v: JsonView,
    block: JsonView,
    id: Seq<char>,
    name: Seq<char>,
)
    requires
        block.at("type"@) == JsonView::Str("tool_use"@),
        block.at("id"@) == JsonView::Str(id),
        block.at("name"@) == JsonView::Str(name),
    ensures
        ({
            let (next, outcome) = stream_json::step(m, v);
            let events = events_of(outcome);
            let early = tool_info::tool_shown(name, JsonView::Object(Seq::empty()), m.cwd);
            let known = tool_info::tool_shown(name, block.at("input"@), m.cwd);
            let input = json::written(block.at("input"@));
            &&& is_frame(v, "stream_event"@) && v.at("event"@).at("type"@) == JsonView::Str(
                "content_block_start"@,
            ) && v.at("event"@).at("content_block"@) == block ==> next.announced.contains(id)
                && if m.announced.contains(id) {
                events.len() == 0
            } else {
                events.len() == 1 && events[0] == EventView::ToolCall {
                    tool_name: None,
                    description: None,
                    tool_call_id: id,
                    title: early.title,
                    kind: early.kind,
                    status: "pending"@,
                    content: None,
                    raw_input: None,
                    raw_output: None,
                    locations: early.locations,
                    meta: None,
                    images: None,
                }
            }
            &&& is_frame(v, "assistant"@) && content(v) == JsonView::Array(seq![block])
                ==> next.announced.contains(id) && events.len() == 1 && events[0]
                == if m.announced.contains(id) {
                EventView::ToolCallUpdate {
                    tool_name: None,
                    description: None,
                    tool_call_id: id,
                    title: Some(known.title),
                    status: Some("in_progress"@),
                    content: None,
                    raw_input: Some(input),
                    raw_output: None,
                    raw_output_append: None,
                    locations: known.locations,
                    meta: None,
                    images: None,
                }
            } else {
                EventView::ToolCall {
                    tool_name: None,
                    description: None,
                    tool_call_id: id,
                    title: known.title,
                    kind: known.kind,
                    status: "in_progress"@,
                    content: None,
                    raw_input: Some(input),
                    raw_output: None,
                    locations: known.locations,
                    meta: None,
                    images: None,
                }
            }
        }),
{
    stream_json::kinds_are_distinct();
    streams_are_apart();
    let blocks = seq![block];
    reveal_with_fuel(stream_json::whole_blocks, 2);
    assert(blocks.drop_last() =~= Seq::empty());
    let last = stream_json::whole_block(m, owner(v), block);
    assert(Seq::<EventView>::empty() + last.1 =~= last.1);
}

/// A new session is announced, under the id that the process names.
pub proof fn sessions_are_announced(m: MapperView, v: JsonView, id: Seq<char>)
    requires
        is_frame(v, "system"@),
        v.at("subtype"@) == JsonView::Str("init"@),
        v.at("session_id"@) == JsonView::Str(id),
    ensures
        stream_json::step(m, v).1 == OutcomeView::Events(
            if m.session_id == Some(id) {
                Seq::empty()
            } else {
                seq![EventView::SessionStarted { session_id: id }]
            },
        ),
        stream_json::step(m, v).0 == (MapperView { session_id: Some(id), ..m }),
{
}

/// The background tasks are those that were launched and have not ended: a launch adds its
/// task, an end takes it away, and neither touches another; the list of the main thread's
/// tasks replaces those of the main thread.
pub proof fn background_tasks_come_and_go(m: MapperView, v: JsonView, id: Seq<char>, other: Seq<char>)
    requires
        is_frame(v, "system"@),
        other != id,
    ensures
        ({
            let next = stream_json::step(m, v).0;
            let now = next.background.contains(id) || next.sub_background.contains(id);
            let others = (next.background.contains(other) || next.sub_background.contains(other))
                == (m.background.contains(other) || m.sub_background.contains(other));
            let status = v.at("patch"@).at("status"@);
            &&& v.at("subtype"@) == JsonView::Str("task_started"@) && v.at("is_backgrounded"@)
                == JsonView::Bool(true) && v.at("task_id"@) == JsonView::Str(id) ==> now && others
            &&& v.at("subtype"@) == JsonView::Str("task_notification"@) && v.at("task_id"@)
                == JsonView::Str(id) ==> !now && others
            &&& v.at("subtype"@) == JsonView::Str("task_updated"@) && v.at("task_id"@)
                == JsonView::Str(id) && (status == JsonView::Str("completed"@) || status
                == JsonView::Str("failed"@) || status == JsonView::Str("killed"@) || status
                == JsonView::Str("stopped"@) || status == JsonView::Str("cancelled"@)) ==> !now
                && others
            &&& v.at("subtype"@) == JsonView::Str("task_updated"@) && status == JsonView::Str(
                "running"@,
            ) ==> next == m
            &&& v.at("subtype"@) == JsonView::Str("background_tasks_changed"@) && v.at("tasks"@)
                == JsonView::Array(seq![JsonView::empty_object().with("task_id"@, JsonView::Str(id))])
                ==> next.background == Set::<Seq<char>>::empty().insert(id)
            &&& v.at("subtype"@) == JsonView::Str("background_tasks_changed"@) && v.at("tasks"@)
                == JsonView::Array(Seq::empty()) ==> next.background == Set::<Seq<char>>::empty()
                && next.sub_background == m.sub_background
        }),
{
    stream_json::task_frames_are_distinct();
    reveal_strlit("completed");
    reveal_strlit("failed");
    reveal_strlit("killed");
    reveal_strlit("stopped");
    reveal_strlit("cancelled");
    reveal_strlit("running");
    assert("running"@.len() == 7 && "completed"@.len() == 9 && "failed"@.len() == 6
        && "killed"@.len() == 6 && "stopped"@.len() == 7 && "cancelled"@.len() == 9);
    assert("running"@[0] == 'r' && "stopped"@[0] == 's');
    let task = JsonView::empty_object().with("task_id"@, JsonView::Str(id));
    json::with_holds(JsonView::empty_object(), "task_id"@, JsonView::Str(id), "task_id"@);
    reveal_with_fuel(json::texts_at, 2);
    assert(seq![task].drop_last() =~= Seq::empty());
    assert(json::texts_at(seq![task], "task_id"@) =~= seq![id]);
    assert(seq![id][0] == id);
    assert(seq![id].to_set() =~= Set::<Seq<char>>::empty().insert(id));
    assert(json::texts_at(Seq::empty(), "task_id"@) =~= Seq::empty());
    assert(Seq::<Seq<char>>::empty().to_set() =~= Set::<Seq<char>>::empty());
}

/// A background call that was launched from the main thread gets its outcome and summary
/// from the notification of its end.
pub proof fn notifications_tell_the_outcome(m: MapperView, v: JsonView, tool: Seq<char>, s: Seq<char>)
    requires
        is_frame(v, "system"@),
        v.at("subtype"@) == JsonView::Str("task_notification"@),
        v.at("tool_use_id"@) == JsonView::Str(tool),
        v.at("summary"@) == JsonView::Str(s),
    ensures
        ({
            let events = events_of(stream_json::step(m, v).1);
            if m.background_tools.contains(tool) {
                events.len() == 1 && tells(
                    events[0],
                    tool,
                    if v.at("status"@) == JsonView::Str("completed"@) {
                        "completed"@
                    } else {
                        "failed"@
                    },
                    s,
                )
            } else {
                events.len() == 0
            }
        }),
{
    stream_json::task_frames_are_distinct();
}

/// A result tells the context that the last call took up: all tokens that it counts, of the
/// largest window among the models.
pub proof fn usage_is_told(
    m: MapperView,
    v: JsonView,
    name: Seq<char>,
    model: JsonView,
    size: u64,
    a: u64,
    b: u64,
    c: u64,
    d: u64,
)
    requires
        is_frame(v, "result"@),
        v.at("modelUsage"@) == JsonView::Object(seq![(name, model)]),
        model.at("contextWindow"@) == JsonView::of_u64(size),
        size > 0,
        ({
            let u = v.at("usage"@);
            let last = if u.at("iterations"@) is Array && u.at("iterations"@)->Array_0.len() > 0 {
                u.at("iterations"@)->Array_0.last()
            } else {
                u
            };
            &&& last.at("input_tokens"@) == JsonView::of_u64(a)
            &&& last.at("cache_creation_input_tokens"@) == JsonView::of_u64(b)
            &&& last.at("cache_read_input_tokens"@) == JsonView::of_u64(c)
            &&& last.at("output_tokens"@) == JsonView::of_u64(d)
        }),
        a + b + c + d <= u64::MAX,
    ensures
        events_of(stream_json::step(m, v).1) == seq![
            EventView::UsageUpdate { used: (a + b + c + d) as u64, size },
        ],
        stream_json::step(m, v).0 == m,
{
    stream_json::kinds_are_distinct();
    let models = seq![(name, model)];
    reveal_with_fuel(stream_json::largest_window, 2);
    assert(models.drop_last() =~= Seq::empty());
}

/// Of several models the largest window counts.
pub proof fn the_largest_window_counts(models: Seq<(Seq<char>, JsonView)>, i: int)
    requires
        0 <= i < models.len(),
        models[i].1.at("contextWindow"@).as_u64() is Some,
    ensures
        stream_json::largest_window(models) is Some,
        stream_json::largest_window(models)->0 >= models[i].1.at("contextWindow"@).as_u64()->0,
        exists|k: int|
            0 <= k < models.len() && (#[trigger] models[k]).1.at("contextWindow"@).as_u64()
                == stream_json::largest_window(models),
    decreases models.len(),
{
    let front = models.drop_last();
    if i < front.len() {
        the_largest_window_counts(front, i);
        let k = choose|k: int|
            0 <= k < front.len() && (#[trigger] front[k]).1.at("contextWindow"@).as_u64()
                == stream_json::largest_window(front);
        assert(models[k] == front[k]);
        assert(models[models.len() - 1] == models.last());
    } else {
        assert(models[models.len() - 1] == models.last());
        if stream_json::largest_window(front) is Some {
            window_is_one_of(front);
            let k = choose|k: int|
                0 <= k < front.len() && (#[trigger] front[k]).1.at("contextWindow"@).as_u64()
                    == stream_json::largest_window(front);
            assert(models[k] == front[k]);
        }
    }
}

/// A window that counts is one of a model.
proof fn window_is_one_of(models: Seq<(Seq<char>, JsonView)>)
    requires
        stream_json::largest_window(models) is Some,
    ensures
        exists|k: int|
            0 <= k < models.len() && (#[trigger] models[k]).1.at("contextWindow"@).as_u64()
                == stream_json::largest_window(models),
    decreases models.len(),
{
    let front = models.drop_last();
    assert(models[models.len() - 1] == models.last());
    if stream_json::largest_window(front) is Some {
        window_is_one_of(front);
        let k = choose|k: int|
            0 <= k < front.len() && (#[trigger] front[k]).1.at("contextWindow"@).as_u64()
                == stream_json::largest_window(front);
        assert(models[k] == front[k]);
    }
}

/// How a turn ends: in success for the reason that the model names, at its limit of turns,
/// or in an error that says why.
pub proof fn results_tell_how_it_ended(m: MapperView, v: JsonView, s: Seq<char>, status: u64)
    requires
        is_frame(v, "result"@),
        s.len() > 0,
    ensures
        stream_json::step(m, v).1 matches OutcomeView::Finished { finish, .. } && {
            let ok = v.at("subtype"@) == JsonView::Str("success"@);
            let wrong = v.at("is_error"@) == JsonView::Bool(true);
            &&& ok && !wrong ==> finish.error is None && finish.stop_reason == if v.at(
                "stop_reason"@,
            ) == JsonView::Str("refusal"@) {
                "refusal"@
            } else if v.at("stop_reason"@) == JsonView::Str("max_tokens"@) {
                "max_tokens"@
            } else {
                "end_turn"@
            }
            &&& ok && wrong && v.at("result"@) == JsonView::Str(s) ==> finish.error is Some
                && finish.error->0.message == s && finish.error->0.code == "cli_api_error"@
            &&& ok && wrong && v.at("api_error_status"@) == JsonView::of_u64(status)
                ==> finish.stop_reason == if status == 401 || status == 403 {
                "auth_required"@
            } else {
                "unknown"@
            }
            &&& v.at("subtype"@) == JsonView::Str("error_max_turns"@) ==> finish.error is None
                && finish.stop_reason == "max_turn_requests"@
            &&& v.at("subtype"@) == JsonView::Str("error_during_execution"@) && v.at("errors"@)
                == JsonView::Array(seq![JsonView::Str(s)]) ==> {
                &&& finish.stop_reason == "unknown"@
                &&& finish.error is Some
                &&& finish.error->0.message == s
                &&& finish.error->0.details == Some("subtype=error_during_execution"@)
                &&& finish.error->0.code == if text::contains(s, "No conversation found"@) {
                    "cli_resume_failed"@
                } else {
                    "cli_execution_error"@
                }
            }
        },
{
    stream_json::kinds_are_distinct();
    reveal_strlit("success");
    reveal_strlit("error_max_turns");
    reveal_strlit("error_during_execution");
    reveal_strlit("subtype=");
    reveal_strlit("subtype=error_during_execution");
    reveal_strlit("refusal");
    reveal_strlit("max_tokens");
    assert("success"@.len() == 7 && "error_max_turns"@.len() == 15
        && "error_during_execution"@.len() == 22);
    assert("subtype="@ + "error_during_execution"@ =~= "subtype=error_during_execution"@);
    let one = seq![JsonView::Str(s)];
    reveal_with_fuel(json::texts, 2);
    assert(one.drop_last() =~= Seq::empty());
    let errors = json::texts(one);
    assert(errors =~= seq![s]);
    assert(errors[0] == s);
    assert(text::join(errors, "; "@) == s);
    assert(stream_json::resume_failed(errors) == text::contains(s, "No conversation found"@));
}

/// A line is mapped as the frame that it spells; one that is no JSON tells nothing and
/// changes nothing.
pub proof fn lines_are_frames(m: MapperView, line: Seq<char>)
    ensures
        json::reading(line) matches Ok(v) ==> stream_json::step_line(m, line) == stream_json::step(
            m,
            v,
        ),
        json::reading(line) is Err ==> stream_json::step_line(m, line) == (
            m,
            OutcomeView::Unparsable,
        ),
{
}

} // verus!
