//! What a page is told when it connects.
use vstd::prelude::*;
use crate::json::{Json, JsonView};

verus! {

/// The channel of the snapshot.
pub const SNAPSHOT_CHANNEL: &'static str = "myclaw://snapshot";

/// A message on a channel.
#[derive(Debug, PartialEq)]
pub struct ChannelFrame {
    pub channel: String,
    pub payload: Json,
}

/// A message on the channel of the snapshot.
pub fn channel_frame(payload: Json) -> (r: ChannelFrame)
    ensures
        r.channel@ == SNAPSHOT_CHANNEL@,
        r.payload == payload,
{
    ChannelFrame { channel: SNAPSHOT_CHANNEL.to_owned(), payload }
}

/// What is known at once.
pub open spec fn first(
    version: Seq<char>,
    capability: JsonView,
    runtime: Seq<char>,
    restart_delay_ms: u64,
    metrics: JsonView,
) -> JsonView {
    JsonView::empty_object().with("version"@, JsonView::Str(version)).with(
        "capability"@,
        capability,
    ).with("runtime"@, JsonView::Str(runtime)).with(
        "restartDelayMs"@,
        JsonView::of_u64(restart_delay_ms),
    ).with("updateChecked"@, JsonView::Bool(false)).with("metrics"@, metrics)
}

/// What is known at once: the version, what it can do, and the use of resources.
pub fn first_frame(
    version: &str,
    capability: Json,
    runtime: &str,
    restart_delay_ms: u64,
    metrics: Json,
) -> (r: ChannelFrame)
    ensures
        r.channel@ == SNAPSHOT_CHANNEL@,
        r.payload@ == first(version@, capability@, runtime@, restart_delay_ms, metrics@),
{
    channel_frame(
        Json::empty_object().with("version", Json::of_str(version)).with(
            "capability",
            capability,
        ).with("runtime", Json::of_str(runtime)).with(
            "restartDelayMs",
            Json::of_u64(restart_delay_ms),
        ).with("updateChecked", Json::Bool(false)).with("metrics", metrics),
    )
}

/// The latest release. `version` is shown as it stands: a leading `v` is taken off
/// before it comes here.
#[derive(Debug)]
pub struct Release {
    pub version: String,
    pub notes: Option<String>,
    pub date: Option<String>,
}

/// What is known once the latest release is.
pub open spec fn second(current: Seq<char>, newer: bool, release: Release) -> JsonView {
    JsonView::empty_object().with("version"@, JsonView::Str(current)).with(
        "updateChecked"@,
        JsonView::Bool(true),
    ).with("updateAvailable"@, JsonView::Bool(newer)).with(
        "latestVersion"@,
        JsonView::str_or_null(
            if newer {
                Some(release.version@)
            } else {
                None
            },
        ),
    ).with(
        "releaseNotes"@,
        JsonView::str_or_null(
            if newer {
                release.notes.deep_view()
            } else {
                None
            },
        ),
    ).with(
        "releaseDate"@,
        JsonView::str_or_null(
            if newer {
                release.date.deep_view()
            } else {
                None
            },
        ),
    )
}

/// What is known once the latest release is. `newer` tells whether it is newer than
/// the current version; where it is not, nothing more is said of it.
pub fn second_frame(current: &str, newer: bool, release: &Release) -> (r: ChannelFrame)
    ensures
        r.channel@ == SNAPSHOT_CHANNEL@,
        r.payload@ == second(current@, newer, *release),
{
    let (latest, notes, date): (Option<&str>, Option<&str>, Option<&str>) = if newer {
        (
            Some(release.version.as_str()),
            crate::text::borrowed(&release.notes),
            crate::text::borrowed(&release.date),
        )
    } else {
        (None, None, None)
    };
    channel_frame(
        Json::empty_object().with("version", Json::of_str(current)).with(
            "updateChecked",
            Json::Bool(true),
        ).with("updateAvailable", Json::Bool(newer)).with(
            "latestVersion",
            Json::str_or_null(latest),
        ).with("releaseNotes", Json::str_or_null(notes)).with(
            "releaseDate",
            Json::str_or_null(date),
        ),
    )
}

} // verus!
