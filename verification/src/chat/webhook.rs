//! Webhooks to which events are reported.
use vstd::prelude::*;
use crate::text;

verus! {

/// The path of the platform's event endpoint. Every other endpoint of the platform
/// is derived from the webhook that points at it.
pub const EVENTS_PATH: &'static str = "/api/codeg/events";

/// A webhook.
#[derive(Debug, PartialEq, Eq)]
pub struct WebhookConfig {
    pub url: String,
    pub enabled: bool,
}

/// Whether a webhook is enabled and points at the platform.
pub open spec fn at_platform(hook: WebhookConfig) -> bool {
    hook.enabled && text::contains(hook.url@, EVENTS_PATH@)
}

/// The address of the first enabled webhook that points at the platform.
pub open spec fn platform_url(hooks: Seq<WebhookConfig>) -> Option<Seq<char>>
    decreases hooks.len(),
{
    if hooks.len() == 0 {
        None
    } else if at_platform(hooks[0]) {
        Some(hooks[0].url@)
    } else {
        platform_url(hooks.skip(1))
    }
}

/// The address of another endpoint of the platform: that of its webhook with the
/// first occurrence of the event path replaced.
pub open spec fn endpoint(hooks: Seq<WebhookConfig>, path: Seq<char>) -> Option<Seq<char>> {
    match platform_url(hooks) {
        Some(url) => Some(text::replace_first(url, EVENTS_PATH@, path)),
        None => None,
    }
}

/// The address of another endpoint of the platform; nothing where no enabled webhook
/// points at the platform.
pub fn derive_endpoint(hooks: &Vec<WebhookConfig>, path: &str) -> (r: Option<String>)
    ensures
        r.deep_view() == endpoint(hooks@, path@),
{
    assert(hooks@.skip(0) =~= hooks@);
    for i in 0..hooks.len()
        invariant
            platform_url(hooks@) == platform_url(hooks@.skip(i as int)),
    {
        assert(hooks@.skip(i as int)[0] == hooks@[i as int]);
        if hooks[i].enabled && text::has(hooks[i].url.as_str(), EVENTS_PATH) {
            return Some(text::replaced_first(hooks[i].url.as_str(), EVENTS_PATH, path));
        }
        assert(hooks@.skip(i as int).skip(1) =~= hooks@.skip(i + 1));
    }
    None
}

/// The addresses of the enabled webhooks.
pub open spec fn enabled_urls(hooks: Seq<WebhookConfig>) -> Seq<Seq<char>>
    decreases hooks.len(),
{
    if hooks.len() == 0 {
        Seq::empty()
    } else if hooks.last().enabled {
        enabled_urls(hooks.drop_last()).push(hooks.last().url@)
    } else {
        enabled_urls(hooks.drop_last())
    }
}

/// The addresses of the enabled webhooks.
pub fn enabled_webhook_urls(hooks: &Vec<WebhookConfig>) -> (r: Vec<String>)
    ensures
        r.deep_view() == enabled_urls(hooks@),
{
    let mut out: Vec<String> = Vec::new();
    assert(out.deep_view() =~= Seq::empty());
    for i in 0..hooks.len()
        invariant
            out.deep_view() == enabled_urls(hooks@.take(i as int)),
    {
        assert(hooks@.take(i + 1).drop_last() =~= hooks@.take(i as int));
        assert(hooks@.take(i + 1).last() == hooks@[i as int]);
        if hooks[i].enabled {
            text::push(&mut out, hooks[i].url.clone());
        }
    }
    assert(hooks@.take(hooks@.len() as int) =~= hooks@);
    out
}

/// Whether a character ends the origin of an address.
pub open spec fn ends_origin(c: char) -> bool {
    c == '/' || c == '?' || c == '#'
}

/// Where the origin of an address ends, looked for from a position on.
pub open spec fn origin_end(url: Seq<char>, from: int) -> int
    decreases url.len() - from,
{
    if from < 0 || from >= url.len() || ends_origin(url[from]) {
        from
    } else {
        origin_end(url, from + 1)
    }
}

/// Where the host of an address begins: behind the mark of its scheme.
pub open spec fn host_start(url: Seq<char>) -> int {
    match text::find(url, "://"@, 0) {
        Some(i) => i + 3,
        None => 0,
    }
}

/// The origin of an address: its scheme and host.
pub open spec fn origin(url: Seq<char>) -> Seq<char> {
    url.take(origin_end(url, host_start(url)))
}

/// The origin of an address, for logs: without the path and the query, in which
/// secrets may stand.
pub fn redact_url(url: &str) -> (r: String)
    ensures
        r@ == origin(url@),
{
    let v = text::chars(url);
    let mark = text::chars("://");
    proof {
        reveal_strlit("://");
        assert("://"@.len() == 3);
    }
    let start: usize = match text::find_from(v.as_slice(), mark.as_slice(), 0) {
        Some(i) => {
            assert(i + 3 <= v.len());
            i + 3
        },
        None => 0,
    };
    let mut i: usize = start;
    while i < v.len() && !(v[i] == '/' || v[i] == '?' || v[i] == '#')
        invariant
            v@ == url@,
            start <= i <= v@.len(),
            origin_end(url@, start as int) == origin_end(url@, i as int),
        decreases v@.len() - i,
    {
        i = i + 1;
    }
    let r = text::slice(v.as_slice(), 0, i);
    assert(r@ =~= url@.take(i as int));
    r
}

/// A disabled webhook is never used, nor one that points elsewhere.
pub proof fn only_platform_hooks_are_used(hooks: Seq<WebhookConfig>)
    ensures
        match platform_url(hooks) {
            Some(url) => exists|i: int|
                0 <= i < hooks.len() && at_platform(#[trigger] hooks[i]) && hooks[i].url@ == url,
            None => forall|i: int| 0 <= i < hooks.len() ==> !at_platform(#[trigger] hooks[i]),
        },
    decreases hooks.len(),
{
    if hooks.len() > 0 && !at_platform(hooks[0]) {
        let rest = hooks.skip(1);
        only_platform_hooks_are_used(rest);
        match platform_url(rest) {
            Some(url) => {
                let i = choose|i: int|
                    0 <= i < rest.len() && at_platform(#[trigger] rest[i]) && rest[i].url@ == url;
                assert(hooks[i + 1] == rest[i]);
            },
            None => {
                assert forall|i: int| 0 <= i < hooks.len() implies !at_platform(
                    #[trigger] hooks[i],
                ) by {
                    if i > 0 {
                        assert(hooks[i] == rest[i - 1]);
                    }
                }
            },
        }
    }
}

/// A derived address differs from the webhook's in the first occurrence of the path
/// alone: what stands before and behind it, the query too, is kept.
pub proof fn derived_endpoint_keeps_the_rest(url: Seq<char>, path: Seq<char>)
    requires
        text::contains(url, EVENTS_PATH@),
    ensures
        exists|i: int|
            0 <= i && i + EVENTS_PATH@.len() <= url.len() && #[trigger] url.subrange(
                i,
                i + EVENTS_PATH@.len(),
            ) == EVENTS_PATH@ && text::replace_first(url, EVENTS_PATH@, path) == url.take(i) + path
                + url.skip(i + EVENTS_PATH@.len()),
{
    text::find_is_first(url, EVENTS_PATH@, 0);
    let j = choose|j: int| text::stands_at(url, EVENTS_PATH@, j);
    let i = text::find(url, EVENTS_PATH@, 0)->0;
    assert(text::stands_at(url, EVENTS_PATH@, i));
    assert(url.subrange(i, i + EVENTS_PATH@.len()) == EVENTS_PATH@);
}

/// The origin of an address holds no query and no fragment, unless they stand before
/// the host.
pub proof fn origin_holds_no_query(url: Seq<char>, i: int)
    requires
        host_start(url) <= i < origin(url).len(),
    ensures
        !ends_origin(origin(url)[i]),
{
    reveal_strlit("://");
    text::find_is_first(url, "://"@, 0);
    origin_end_in_range(url, host_start(url));
    origin_end_is_first(url, host_start(url), i);
}

/// The origin ends within the address.
proof fn origin_end_in_range(url: Seq<char>, from: int)
    requires
        0 <= from <= url.len(),
    ensures
        from <= origin_end(url, from) <= url.len(),
    decreases url.len() - from,
{
    if from < url.len() && !ends_origin(url[from]) {
        origin_end_in_range(url, from + 1);
    }
}

/// Before the end of the origin no character ends it.
proof fn origin_end_is_first(url: Seq<char>, from: int, i: int)
    requires
        0 <= from <= i < origin_end(url, from),
    ensures
        i < url.len(),
        !ends_origin(url[i]),
    decreases url.len() - from,
{
    if from < url.len() && !ends_origin(url[from]) && from < i {
        origin_end_is_first(url, from + 1, i);
    }
}

} // verus!
