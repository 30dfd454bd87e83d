//! What a stream-JSON turn remembers of its frames, and how it ends.
use vstd::prelude::*;
use crate::agents;
use crate::agents::DriverKind;
use crate::cli::outcome::{ErrorView, OutcomeView};
use crate::cli::stream_json;
use crate::cli::stream_json::{events_of, MapperView};
use crate::cli::stream_laws;
use crate::events::EventView;
use crate::json;
use crate::json::JsonView;
use crate::text;

verus! {

/// A frame of the system.
pub open spec fn is_system(v: JsonView, subtype: Seq<char>) -> bool {
    stream_laws::is_frame(v, "system"@) && v.at("subtype"@) == JsonView::Str(subtype)
}

/// A task that is started in the background is kept, with the call that started it; one that a
/// subagent owns is kept apart, and its call is not waited for. A task in the foreground is
/// not kept.
pub proof fn tasks_are_kept(m: MapperView, v: JsonView, task: Seq<char>, tool: Seq<char>)
    requires
        is_system(v, "task_started"@),
        v.at("task_id"@) == JsonView::Str(task),
        v.at("tool_use_id"@) == JsonView::Str(tool),
    ensures
        ({
            let (next, outcome) = stream_json::step(m, v);
            let back = v.at("is_backgrounded"@) == JsonView::Bool(true);
            let sub = v.at("owned_by_subagent"@) == JsonView::Bool(true);
            &&& outcome == OutcomeView::Events(Seq::empty())
            &&& !back ==> next == m
            &&& back && !sub ==> next == MapperView {
                background: m.background.insert(task),
                background_tools: m.background_tools.insert(tool),
                ..m
            }
            &&& back && sub ==> next == MapperView {
                sub_background: m.sub_background.insert(task),
                ..m
            }
        }),
{
    stream_json::kinds_are_distinct();
    stream_json::task_frames_are_distinct();
}

/// A list of the tasks in the background takes the place of those that were known.
pub proof fn lists_take_the_place_of_what_was_known(m: MapperView, v: JsonView, tasks: Seq<JsonView>)
    requires
        is_system(v, "background_tasks_changed"@),
        v.at("tasks"@) == JsonView::Array(tasks),
    ensures
        stream_json::step(m, v) == (
            MapperView { background: json::texts_at(tasks, "task_id"@).to_set(), ..m },
            OutcomeView::Events(Seq::empty()),
        ),
{
    stream_json::kinds_are_distinct();
    stream_json::task_frames_are_distinct();
}

/// A task that has ended, in any of the five ways, is no longer waited for; the call that
/// started it still is, until its outcome is told. Any other news of it changes nothing.
pub proof fn ended_tasks_are_not_waited_for(m: MapperView, v: JsonView, task: Seq<char>)
    requires
        is_system(v, "task_updated"@),
        v.at("task_id"@) == JsonView::Str(task),
    ensures
        ({
            let status = v.at("patch"@).at("status"@);
            let over = status == JsonView::Str("completed"@) || status == JsonView::Str("failed"@)
                || status == JsonView::Str("killed"@) || status == JsonView::Str("stopped"@)
                || status == JsonView::Str("cancelled"@);
            let (next, outcome) = stream_json::step(m, v);
            &&& outcome == OutcomeView::Events(Seq::empty())
            &&& over ==> next == MapperView {
                background: m.background.remove(task),
                sub_background: m.sub_background.remove(task),
                ..m
            }
            &&& !over ==> next == m
        }),
{
    stream_json::kinds_are_distinct();
    stream_json::task_frames_are_distinct();
}

/// The outcome of a task ends the waiting for it and for the call that started it.
pub proof fn told_tasks_are_forgotten(m: MapperView, v: JsonView, task: Seq<char>, tool: Seq<char>)
    requires
        is_system(v, "task_notification"@),
        v.at("task_id"@) == JsonView::Str(task),
        v.at("tool_use_id"@) == JsonView::Str(tool),
    ensures
        stream_json::step(m, v).0 == (MapperView {
            background: m.background.remove(task),
            sub_background: m.sub_background.remove(task),
            background_tools: m.background_tools.remove(tool),
            ..m
        }),
{
    stream_json::kinds_are_distinct();
    stream_json::task_frames_are_distinct();
    if !m.background_tools.contains(tool) {
        assert(m.background_tools.remove(tool) =~= m.background_tools);
    }
}

/// A turn has work in the background as long as a task is kept, whoever owns it.
pub proof fn kept_tasks_are_pending(m: MapperView, task: Seq<char>)
    ensures
        m.background.contains(task) || m.sub_background.contains(task) ==> m.pending(),
        (forall|t: Seq<char>|
            !(#[trigger] m.background.contains(t)) && !m.sub_background.contains(t)) ==> !m.pending(),
{
    if forall|t: Seq<char>|
        !(#[trigger] m.background.contains(t)) && !m.sub_background.contains(t) {
        assert(m.background =~= Set::<Seq<char>>::empty());
        assert forall|t: Seq<char>| !#[trigger] m.sub_background.contains(t) by {
            assert(!m.background.contains(t));
        }
        assert(m.sub_background =~= Set::<Seq<char>>::empty());
    }
}

/// Every error of a turn that failed is told; without any it is told how the turn ended.
pub proof fn every_error_is_told(m: MapperView, v: JsonView, subtype: Seq<char>, errors: Seq<JsonView>)
    requires
        stream_laws::is_frame(v, "result"@),
        v.at("subtype"@) == JsonView::Str(subtype),
        subtype != "success"@,
        subtype != "error_max_turns"@,
    ensures
        stream_json::step(m, v).1 matches OutcomeView::Finished { finish, .. } && {
            let told = json::texts(errors);
            &&& finish.stop_reason == "unknown"@
            &&& v.at("errors"@) == JsonView::Array(errors) && told.len() > 0 ==> finish.error
                == Some(
                ErrorView {
                    code: if exists|i: int|
                        0 <= i < told.len() && text::contains(
                            #[trigger] told[i],
                            "No conversation found"@,
                        ) {
                        "cli_resume_failed"@
                    } else {
                        "cli_execution_error"@
                    },
                    message: text::join(told, "; "@),
                    details: Some("subtype="@ + subtype),
                },
            )
            &&& !(v.at("errors"@) is Array) ==> finish.error == Some(
                ErrorView {
                    code: "cli_execution_error"@,
                    message: agents::called(DriverKind::Stream) + " turn failed ("@ + subtype
                        + ")"@,
                    details: Some("subtype="@ + subtype),
                },
            )
        },
{
    stream_json::kinds_are_distinct();
}

/// A failure of the service is told with its status.
pub proof fn failures_of_the_service_are_told(m: MapperView, v: JsonView, status: u64)
    requires
        stream_laws::is_frame(v, "result"@),
        v.at("subtype"@) == JsonView::Str("success"@),
        v.at("is_error"@) == JsonView::Bool(true),
    ensures
        stream_json::step(m, v).1 matches OutcomeView::Finished { finish, .. } && {
            &&& finish.error is Some
            &&& finish.error->0.code == "cli_api_error"@
            &&& v.at("api_error_status"@) == JsonView::of_u64(status) ==> finish.error->0.details
                == Some("api_error_status="@ + text::dec(status as nat))
            &&& v.at("api_error_status"@) == JsonView::Null ==> finish.error->0.details is None
                && finish.stop_reason == "unknown"@
            &&& !(v.at("result"@) is Str) ==> finish.error->0.message == agents::called(
                DriverKind::Stream,
            ) + " reported an API error"@
        },
{
    stream_json::kinds_are_distinct();
}

/// The number that a usage holds under a name, and nought where it holds none.
pub open spec fn count(usage: JsonView, key: Seq<char>) -> int {
    if usage.at(key).as_u64() is Some {
        usage.at(key).as_u64()->0 as int
    } else {
        0
    }
}

/// The usage that is told is that of the last request: everything that it read and wrote, out
/// of the largest window that a model of the turn has. Without a window none is told.
pub proof fn everything_read_and_written_counts(m: MapperView, v: JsonView, models: Seq<(Seq<char>, JsonView)>)
    requires
        stream_laws::is_frame(v, "result"@),
    ensures
        ({
            let events = events_of(stream_json::step(m, v).1);
            let u = v.at("usage"@);
            let last = if u.at("iterations"@) is Array && u.at("iterations"@)->Array_0.len() > 0 {
                u.at("iterations"@)->Array_0.last()
            } else {
                u
            };
            let sum = count(last, "input_tokens"@) + count(last, "cache_creation_input_tokens"@)
                + count(last, "cache_read_input_tokens"@) + count(last, "output_tokens"@);
            let size = stream_json::largest_window(models);
            &&& !(v.at("modelUsage"@) is Object) ==> events.len() == 0
            &&& v.at("modelUsage"@) == JsonView::Object(models) && (size is None || size->0 == 0)
                ==> events.len() == 0
            &&& v.at("modelUsage"@) == JsonView::Object(models) && size is Some && size->0 > 0
                ==> events == seq![
                EventView::UsageUpdate {
                    used: if sum <= u64::MAX {
                        sum as u64
                    } else {
                        u64::MAX
                    },
                    size: size->0,
                },
            ]
        }),
{
    stream_json::kinds_are_distinct();
}

/// A frame of a kind that is not known changes nothing and tells nothing.
pub proof fn other_frames_are_passed_over(m: MapperView, v: JsonView)
    requires
        !stream_laws::is_frame(v, "system"@),
        !stream_laws::is_frame(v, "stream_event"@),
        !stream_laws::is_frame(v, "assistant"@),
        !stream_laws::is_frame(v, "user"@),
        !stream_laws::is_frame(v, "result"@),
    ensures
        stream_json::step(m, v) == (m, OutcomeView::Events(Seq::empty())),
{
}

/// A block that streamed is remembered until the next one begins or it comes whole, each
/// under the call that it belongs to; nothing else changes.
pub proof fn streamed_blocks_are_remembered(m: MapperView, v: JsonView, block: JsonView, s: Seq<char>)
    requires
        s.len() > 0,
    ensures
        ({
            let next = stream_json::step(m, v).0;
            let p = stream_laws::owner(v);
            let event = v.at("event"@);
            let prose = block.at("type"@) == JsonView::Str("text"@) || block.at("type"@)
                == JsonView::Str("thinking"@);
            &&& stream_laws::is_frame(v, "stream_event"@) && event.at("type"@) == JsonView::Str(
                "content_block_start"@,
            ) && event.at("content_block"@) == block && prose ==> next == MapperView {
                streamed: m.streamed.remove(p),
                ..m
            }
            &&& stream_laws::is_frame(v, "stream_event"@) && event.at("type"@) == JsonView::Str(
                "content_block_delta"@,
            ) && event.at("delta"@).at("type"@) == JsonView::Str("text_delta"@) && event.at(
                "delta"@,
            ).at("text"@) == JsonView::Str(s) ==> next == MapperView {
                streamed: m.streamed.insert(p),
                ..m
            }
            &&& stream_laws::is_frame(v, "stream_event"@) && event.at("type"@) == JsonView::Str(
                "content_block_delta"@,
            ) && event.at("delta"@).at("type"@) == JsonView::Str("thinking_delta"@) && event.at(
                "delta"@,
            ).at("thinking"@) == JsonView::Str(s) ==> next == MapperView {
                streamed: m.streamed.insert(p),
                ..m
            }
            &&& stream_laws::is_frame(v, "assistant"@) && stream_laws::content(v) == JsonView::Array(
                seq![block],
            ) && prose ==> next == MapperView { streamed: m.streamed.remove(p), ..m }
        }),
{
    stream_json::kinds_are_distinct();
    reveal_strlit("content_block_start");
    reveal_strlit("content_block_delta");
    assert("content_block_start"@[14] == 's' && "content_block_delta"@[14] == 'd');
    reveal_strlit("text_delta");
    reveal_strlit("thinking_delta");
    assert("text_delta"@.len() == 10 && "thinking_delta"@.len() == 14);
    reveal_strlit("text");
    reveal_strlit("thinking");
    reveal_strlit("tool_use");
    assert("text"@.len() == 4 && "thinking"@.len() == 8 && "tool_use"@.len() == 8);
    assert("thinking"@[1] == 'h' && "tool_use"@[1] == 'o');
    reveal_with_fuel(stream_json::whole_blocks, 2);
    assert(seq![block].drop_last() =~= Seq::<JsonView>::empty());
}

} // verus!
