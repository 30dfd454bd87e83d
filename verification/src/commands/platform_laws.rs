//! What dealing with the platform and with chat channels promises.
use vstd::prelude::*;
use crate::chat::backends;
use crate::chat::backends::{BackendView, ChannelSettings, DefaultsView, LarkConfig, TelegramConfig, WeixinConfig};
use crate::chat::webhook;
use crate::chat::webhook::WebhookConfig;
use crate::commands::myclaw_route;
use crate::commands::myclaw_route::{Address, Verdict};
use crate::commands::myclaw_skills;
use crate::commands::myclaw_upload;
use crate::paths;
use crate::paths_laws;
use crate::text;

verus! {

/// A hook of the platform that is on.
pub open spec fn leads_to_the_platform(hook: WebhookConfig) -> bool {
    hook.enabled && text::contains(hook.url@, "/api/codeg/events"@)
}

/// The platform is where the first hook that is on leads to it; without one there is none.
/// Its other addresses differ in the path alone.
pub proof fn the_first_hook_counts(hooks: Seq<WebhookConfig>, path: Seq<char>, i: int)
    requires
        0 <= i <= hooks.len(),
        forall|j: int| 0 <= j < i ==> !leads_to_the_platform(#[trigger] hooks[j]),
        i < hooks.len() ==> leads_to_the_platform(hooks[i]),
    ensures
        i == hooks.len() ==> webhook::endpoint(hooks, path) is None,
        i < hooks.len() ==> webhook::endpoint(hooks, path) == Some(
            text::replace_first(hooks[i].url@, "/api/codeg/events"@, path),
        ),
    decreases i,
{
    if i > 0 {
        assert(!leads_to_the_platform(hooks[0]));
        let rest = hooks.skip(1);
        assert forall|j: int| 0 <= j < i - 1 implies !leads_to_the_platform(#[trigger] rest[j]) by {
            assert(rest[j] == hooks[j + 1]);
        }
        the_first_hook_counts(rest, path, i - 1);
    }
}

/// What is replaced is the first occurrence, and nothing else.
pub proof fn only_the_first_is_replaced(a: Seq<char>, p: Seq<char>, b: Seq<char>, to: Seq<char>)
    requires
        forall|i: int| 0 <= i < a.len() ==> !#[trigger] text::stands_at(a + p + b, p, i),
    ensures
        text::replace_first(a + p + b, p, to) == a + to + b,
{
    let s = a + p + b;
    assert(s.subrange(a.len() as int, a.len() + p.len() as int) =~= p);
    assert(text::stands_at(s, p, a.len() as int));
    text::find_is_first(s, p, 0);
    match text::find(s, p, 0) {
        Some(i) => {
            assert(text::stands_at(s, p, i));
            assert(i == a.len());
            assert(s.take(i) =~= a);
            assert(s.skip(i + p.len()) =~= b);
        },
        None => {},
    }
}

/// Events go to every hook that is on, in their order.
pub proof fn every_hook_that_is_on_is_called(hooks: Seq<WebhookConfig>, hook: WebhookConfig)
    ensures
        webhook::enabled_urls(Seq::empty()).len() == 0,
        webhook::enabled_urls(hooks.push(hook)) == (if hook.enabled {
            webhook::enabled_urls(hooks).push(hook.url@)
        } else {
            webhook::enabled_urls(hooks)
        }),
{
    assert(hooks.push(hook).drop_last() =~= hooks);
}

/// An address is shown up to the end of its host: what stands behind it is left out, and
/// nothing else.
pub proof fn addresses_are_shown_without_their_paths(scheme: Seq<char>, host: Seq<char>, rest: Seq<char>)
    requires
        forall|i: int| 0 <= i < scheme.len() ==> #[trigger] scheme[i] != ':',
        forall|i: int| 0 <= i < host.len() ==> #[trigger] host[i] != '/' && host[i] != '?' && host[i] != '#',
        rest.len() == 0 || rest[0] == '/' || rest[0] == '?' || rest[0] == '#',
    ensures
        webhook::origin(scheme + "://"@ + host + rest) == scheme + "://"@ + host,
{
    reveal_strlit("://");
    let mark = "://"@;
    assert(mark.len() == 3 && mark[0] == ':');
    let url = scheme + mark + host + rest;
    let n = scheme.len() as int;
    assert(url.subrange(n, n + 3) =~= mark);
    assert(text::stands_at(url, mark, n));
    text::find_is_first(url, mark, 0);
    assert(webhook::host_start(url) == n + 3) by {
        match text::find(url, mark, 0) {
            Some(i) => {
                assert(text::stands_at(url, mark, i));
                if i < n {
                    assert(url.subrange(i, i + 3)[0] == ':');
                    assert(url[i] == scheme[i]);
                }
            },
            None => {},
        }
    }
    hosts_end(url, n + 3, n + 3 + host.len());
    assert(url.take(n + 3 + host.len()) =~= scheme + mark + host);
}

/// Where a host ends.
proof fn hosts_end(url: Seq<char>, from: int, end: int)
    requires
        0 <= from <= end <= url.len(),
        forall|i: int| from <= i < end ==> #[trigger] url[i] != '/' && url[i] != '?' && url[i] != '#',
        end < url.len() ==> url[end] == '/' || url[end] == '?' || url[end] == '#',
    ensures
        webhook::origin_end(url, from) == end,
    decreases end - from,
{
    if from < end {
        assert(url[from] != '/');
        hosts_end(url, from + 1, end);
    }
}

/// A Telegram channel needs a chat; one that answers directly needs a folder and an agent, and
/// starts its sessions with them.
pub proof fn telegram_channels_need_a_chat(id: i32, cfg: TelegramConfig, token: Seq<char>)
    ensures
        ({
            let b = backends::backend(id, ChannelSettings::Telegram(Ok(cfg)), token);
            let folder = cfg.default_folder_path is Some && text::trim(
                cfg.default_folder_path->0@,
            ).len() > 0;
            let agent = cfg.default_agent_type is Some && text::trim(
                cfg.default_agent_type->0@,
            ).len() > 0;
            let direct = cfg.direct_chat_enabled;
            &&& cfg.chat_id@.len() == 0 ==> b == Err::<BackendView, Seq<char>>(
                "chat_id is required"@,
            )
            &&& cfg.chat_id@.len() > 0 && direct && !folder ==> b == Err::<BackendView, Seq<char>>(
                "default_folder_path is required when direct_chat_enabled is true"@,
            )
            &&& cfg.chat_id@.len() > 0 && direct && folder && !agent ==> b == Err::<
                BackendView,
                Seq<char>,
            >("default_agent_type is required when direct_chat_enabled is true"@)
            &&& cfg.chat_id@.len() > 0 && direct && folder && agent ==> b == Ok::<
                BackendView,
                Seq<char>,
            >(
                BackendView::Telegram {
                    channel_id: id,
                    token,
                    chat_id: cfg.chat_id@,
                    topic_mode: cfg.topic_mode,
                    session_defaults: Some(
                        DefaultsView {
                            folder_path: cfg.default_folder_path->0@,
                            agent_type: cfg.default_agent_type->0@,
                        },
                    ),
                },
            )
            &&& cfg.chat_id@.len() > 0 && !direct ==> b == Ok::<BackendView, Seq<char>>(
                BackendView::Telegram {
                    channel_id: id,
                    token,
                    chat_id: cfg.chat_id@,
                    topic_mode: cfg.topic_mode,
                    session_defaults: None,
                },
            )
        }),
{
}

/// The other channels need their addresses; settings that cannot be read are refused with
/// what is wrong with them.
pub proof fn channels_need_their_addresses(
    id: i32,
    weixin: WeixinConfig,
    lark: LarkConfig,
    token: Seq<char>,
    why: String,
)
    ensures
        weixin.base_url@.len() > 0 ==> backends::backend(
            id,
            ChannelSettings::Weixin(Ok(weixin)),
            token,
        ) == Ok::<BackendView, Seq<char>>(
            BackendView::Weixin { channel_id: id, token, base_url: weixin.base_url@ },
        ),
        weixin.base_url@.len() == 0 ==> backends::backend(
            id,
            ChannelSettings::Weixin(Ok(weixin)),
            token,
        ) == Err::<BackendView, Seq<char>>("base_url is required"@),
        lark.app_id@.len() > 0 && lark.chat_id@.len() > 0 ==> backends::backend(
            id,
            ChannelSettings::Lark(Ok(lark)),
            token,
        ) == Ok::<BackendView, Seq<char>>(
            BackendView::Lark {
                channel_id: id,
                app_id: lark.app_id@,
                token,
                chat_id: lark.chat_id@,
            },
        ),
        lark.app_id@.len() == 0 || lark.chat_id@.len() == 0 ==> backends::backend(
            id,
            ChannelSettings::Lark(Ok(lark)),
            token,
        ) == Err::<BackendView, Seq<char>>("app_id and chat_id are required"@),
        backends::backend(id, ChannelSettings::Telegram(Err(why)), token) == Err::<
            BackendView,
            Seq<char>,
        >("Invalid Telegram config: "@ + why@),
        backends::backend(id, ChannelSettings::Weixin(Err(why)), token) == Err::<
            BackendView,
            Seq<char>,
        >("Invalid Weixin config: "@ + why@),
        backends::backend(id, ChannelSettings::Lark(Err(why)), token) == Err::<
            BackendView,
            Seq<char>,
        >("Invalid Lark config: "@ + why@),
{
}

/// An address that other machines can reach: not one of this machine alone, of its link alone
/// or of none.
pub open spec fn can_be_reached(a: Address) -> bool {
    a matches Address::V4(a, b, c, d) && a != 127 && !(a == 169 && b == 254) && !(a == 0 && b == 0
        && c == 0 && d == 0)
}

/// The instance registers under the first of its addresses that can be reached, written with
/// dots; without one it does not register.
pub proof fn the_first_address_counts(all: Seq<Address>, i: int)
    requires
        0 <= i <= all.len(),
        forall|j: int| 0 <= j < i ==> !can_be_reached(#[trigger] all[j]),
        i < all.len() ==> can_be_reached(all[i]),
    ensures
        i == all.len() ==> myclaw_route::own_address(all) is None,
        i < all.len() ==> (all[i] matches Address::V4(a, b, c, d) && myclaw_route::own_address(all)
            == Some(
            text::dec(a as nat) + "."@ + text::dec(b as nat) + "."@ + text::dec(c as nat) + "."@
                + text::dec(d as nat),
        )),
    decreases i,
{
    if i > 0 {
        assert(!can_be_reached(all[0]));
        let rest = all.skip(1);
        assert forall|j: int| 0 <= j < i - 1 implies !can_be_reached(#[trigger] rest[j]) by {
            assert(rest[j] == all[j + 1]);
        }
        the_first_address_counts(rest, i - 1);
    }
}

/// A port is a number that fits; anything else is the usual one.
pub proof fn ports_are_read(raw: Seq<char>, n: u64)
    ensures
        myclaw_route::port(None) == 3080,
        text::number(text::trim(raw)) == Some(n) && n <= 65_535 ==> myclaw_route::port(Some(raw)) == n,
        text::number(text::trim(raw)) == Some(n) && n > 65_535 ==> myclaw_route::port(Some(raw)) == 3080,
        text::number(text::trim(raw)) is None ==> myclaw_route::port(Some(raw)) == 3080,
{
}

/// An answer of two hundred and so is a success, one of four hundred and so is final, and
/// after any other the attempt is made again.
pub proof fn answers_are_judged(status: u16)
    ensures
        200 <= status <= 299 ==> myclaw_route::verdict(status) == Verdict::Registered,
        400 <= status <= 499 ==> myclaw_route::verdict(status) == Verdict::Refused,
        !(200 <= status <= 299) && !(400 <= status <= 499) ==> myclaw_route::verdict(status)
            == Verdict::Retry,
{
}

/// The first six pauses double from two seconds on; later ones are five minutes.
pub proof fn pauses_grow(attempt: u32)
    ensures
        myclaw_route::pause_after(1) == 2,
        myclaw_route::pause_after(2) == 4,
        myclaw_route::pause_after(3) == 8,
        myclaw_route::pause_after(4) == 16,
        myclaw_route::pause_after(5) == 32,
        myclaw_route::pause_after(6) == 64,
        attempt > 6 ==> myclaw_route::pause_after(attempt) == 300,
{
    reveal_with_fuel(myclaw_route::doubled, 6);
}

/// What an answer said is shown up to its two hundredth character.
pub proof fn answers_are_shown_in_part(body: Seq<char>)
    ensures
        body.len() <= 200 ==> myclaw_route::clipped(body) == body,
        body.len() > 200 ==> myclaw_route::clipped(body) == body.take(200),
{
}

/// The ending of a file is what stands behind the last dot of its name, unless the name
/// begins with that dot.
pub proof fn endings_are_read(dir: Seq<char>, stem: Seq<char>, ending: Seq<char>)
    requires
        dir.len() > 0,
        stem.len() > 0,
        forall|i: int| 0 <= i < stem.len() ==> #[trigger] stem[i] != '/',
        forall|i: int| 0 <= i < ending.len() ==> #[trigger] ending[i] != '/' && ending[i] != '.',
        ending.len() > 0,
    ensures
        myclaw_upload::extension(paths::below(dir, stem + seq!['.'] + ending)) == Some(ending),
        myclaw_upload::extension(paths::below(dir, seq!['.'] + ending)) is None,
{
    let hidden = seq!['.'] + ending;
    let none = Seq::<char>::empty();
    assert(hidden[1] == ending[0]);
    assert(hidden[1] != '.');
    paths_laws::files_are_called_by_the_last_part(dir, hidden);
    last_dots_are_found(none, ending);
    assert(none + seq!['.'] + ending =~= hidden);
    let name = stem + seq!['.'] + ending;
    assert(name.len() >= 3);
    paths_laws::files_are_called_by_the_last_part(dir, name);
    last_dots_are_found(stem, ending);
    assert(name.skip(stem.len() + 1 as int) =~= ending);
}

/// Where the last dot is.
proof fn last_dots_are_found(stem: Seq<char>, ending: Seq<char>)
    requires
        forall|i: int| 0 <= i < ending.len() ==> #[trigger] ending[i] != '.',
    ensures
        myclaw_upload::last_dot(stem + seq!['.'] + ending) == Some(stem.len() as int),
    decreases ending.len(),
{
    let s = stem + seq!['.'] + ending;
    if ending.len() > 0 {
        assert(s.last() == ending[ending.len() - 1]);
        assert(s.drop_last() =~= stem + seq!['.'] + ending.drop_last());
        last_dots_are_found(stem, ending.drop_last());
    } else {
        assert(s.last() == '.');
    }
}

/// A file is uploaded where there is one, with something in it, of up to two hundred
/// mebibytes; any other is refused with what is wrong with it.
pub proof fn odd_files_are_refused(path: Seq<char>, size: u64)
    ensures
        myclaw_upload::file_fault(path, false, size) == Some("not a file: "@ + path),
        myclaw_upload::file_fault(path, true, 0) == Some("file is empty: "@ + path),
        1 <= size <= 209_715_200 ==> myclaw_upload::file_fault(path, true, size) is None,
        size > 209_715_200 ==> myclaw_upload::file_fault(path, true, size) == Some(
            "file is "@ + text::dec(size as nat) + " bytes; the limit is "@ + text::dec(209_715_200)
                + " bytes (200MB)"@,
        ),
{
}

/// Files are told by their endings; an ending that is not known tells nothing.
pub proof fn kinds_are_told_by_their_endings(e: Seq<char>)
    ensures
        myclaw_upload::media_type("pptx"@)
            == "application/vnd.openxmlformats-officedocument.presentationml.presentation"@,
        myclaw_upload::media_type("docx"@)
            == "application/vnd.openxmlformats-officedocument.wordprocessingml.document"@,
        myclaw_upload::media_type("xlsx"@)
            == "application/vnd.openxmlformats-officedocument.spreadsheetml.sheet"@,
        myclaw_upload::media_type("pdf"@) == "application/pdf"@,
        myclaw_upload::media_type("png"@) == "image/png"@,
        myclaw_upload::media_type("jpg"@) == "image/jpeg"@,
        myclaw_upload::media_type("jpeg"@) == "image/jpeg"@,
        myclaw_upload::media_type("gif"@) == "image/gif"@,
        myclaw_upload::media_type("svg"@) == "image/svg+xml"@,
        myclaw_upload::media_type("webp"@) == "image/webp"@,
        myclaw_upload::media_type("mp4"@) == "video/mp4"@,
        myclaw_upload::media_type("zip"@) == "application/zip"@,
        myclaw_upload::media_type("json"@) == "application/json"@,
        myclaw_upload::media_type("csv"@) == "text/csv"@,
        myclaw_upload::media_type("md"@) == "text/markdown"@,
        myclaw_upload::media_type("txt"@) == "text/plain"@,
        myclaw_upload::media_type("log"@) == "text/plain"@,
        myclaw_upload::media_type("html"@) == "text/html"@,
        myclaw_upload::media_type("htm"@) == "text/html"@,
        e.len() > 4 || e.len() < 2 ==> myclaw_upload::media_type(e) == "application/octet-stream"@,
{
    reveal_strlit("pptx");
    reveal_strlit("docx");
    reveal_strlit("xlsx");
    reveal_strlit("pdf");
    reveal_strlit("png");
    reveal_strlit("jpg");
    reveal_strlit("jpeg");
    reveal_strlit("gif");
    reveal_strlit("svg");
    reveal_strlit("webp");
    reveal_strlit("mp4");
    reveal_strlit("zip");
    reveal_strlit("json");
    reveal_strlit("csv");
    reveal_strlit("md");
    reveal_strlit("txt");
    reveal_strlit("log");
    reveal_strlit("html");
    reveal_strlit("htm");
    assert("pptx"@.len() == 4 && "pptx"@[0] == 'p' && "pptx"@[1] == 'p');
    assert("docx"@.len() == 4 && "docx"@[0] == 'd');
    assert("xlsx"@.len() == 4 && "xlsx"@[0] == 'x');
    assert("pdf"@.len() == 3 && "pdf"@[0] == 'p' && "pdf"@[1] == 'd');
    assert("png"@.len() == 3 && "png"@[0] == 'p' && "png"@[1] == 'n');
    assert("jpg"@.len() == 3 && "jpg"@[0] == 'j');
    assert("jpeg"@.len() == 4 && "jpeg"@[0] == 'j' && "jpeg"@[1] == 'p');
    assert("gif"@.len() == 3 && "gif"@[0] == 'g');
    assert("svg"@.len() == 3 && "svg"@[0] == 's');
    assert("webp"@.len() == 4 && "webp"@[0] == 'w');
    assert("mp4"@.len() == 3 && "mp4"@[0] == 'm');
    assert("zip"@.len() == 3 && "zip"@[0] == 'z');
    assert("json"@.len() == 4 && "json"@[0] == 'j' && "json"@[1] == 's');
    assert("csv"@.len() == 3 && "csv"@[0] == 'c');
    assert("md"@.len() == 2);
    assert("txt"@.len() == 3 && "txt"@[0] == 't');
    assert("log"@.len() == 3 && "log"@[0] == 'l');
    assert("html"@.len() == 4 && "html"@[0] == 'h');
    assert("htm"@.len() == 3 && "htm"@[0] == 'h');
}

/// The platform takes registrations, skills and uploads beside the events.
pub proof fn the_platform_has_these_paths()
    ensures
        webhook::EVENTS_PATH@ == "/api/codeg/events"@,
        myclaw_route::ROUTE_PATH@ == "/api/codeg/route"@,
        myclaw_skills::SKILLS_PATH@ == "/api/codeg/skills"@,
        myclaw_upload::UPLOAD_URL_PATH@ == "/api/codeg/upload-url"@,
        myclaw_skills::SYNC_MIN_SECS == 600,
        myclaw_skills::SYNC_MAX_SECS == 900,
        myclaw_upload::PUT_ATTEMPTS == 3,
        myclaw_upload::PUT_PAUSE_SECS == 2,
{
}

} // verus!
