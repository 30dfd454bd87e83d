//! The registration of an instance's address with the platform.
//!
//! The address changes with every restart, so an instance reports it when it starts,
//! and goes on trying until the platform accepts or refuses it.
use vstd::prelude::*;
use crate::chat::webhook;
use crate::chat::webhook::WebhookConfig;
use crate::json::{Json, JsonView};
use crate::text;

verus! {

/// The path of the registration endpoint.
pub const ROUTE_PATH: &'static str = "/api/codeg/route";

/// How many attempts are made in quick succession.
pub const FAST_ATTEMPTS: u32 = 6;

/// The pause after the first attempt in seconds; each further pause is twice as long.
pub const BACKOFF_BASE_SECS: u64 = 2;

/// The pause after each attempt that follows the quick ones, in seconds.
pub const SLOW_RETRY_SECS: u64 = 300;

/// The port of an instance that names none.
pub const DEFAULT_PORT: u16 = 3080;

/// The registration endpoint; nothing where the instance is not managed.
pub fn route_endpoint(hooks: &Vec<WebhookConfig>) -> (r: Option<String>)
    ensures
        r.deep_view() == webhook::endpoint(hooks@, ROUTE_PATH@),
{
    webhook::derive_endpoint(hooks, ROUTE_PATH)
}

/// The address of a network interface.
#[derive(Clone, Copy, Debug, PartialEq, Eq, Structural)]
pub enum Address {
    V4(u8, u8, u8, u8),
    V6,
}

/// Whether an address can be reached from elsewhere: it is one of version 4 that is
/// not that of the machine itself, not link-local and not unspecified.
pub open spec fn reachable(a: Address) -> bool {
    match a {
        Address::V4(a, b, c, d) => a != 127 && !(a == 169 && b == 254) && !(a == 0 && b == 0 && c
            == 0 && d == 0),
        Address::V6 => false,
    }
}

/// An address in dotted decimal.
pub open spec fn dotted(a: Address) -> Seq<char> {
    match a {
        Address::V4(a, b, c, d) => text::dec(a as nat) + "."@ + text::dec(b as nat) + "."@
            + text::dec(c as nat) + "."@ + text::dec(d as nat),
        Address::V6 => Seq::empty(),
    }
}

/// The first address that can be reached.
pub open spec fn own_address(all: Seq<Address>) -> Option<Seq<char>>
    decreases all.len(),
{
    if all.len() == 0 {
        None
    } else if reachable(all[0]) {
        Some(dotted(all[0]))
    } else {
        own_address(all.skip(1))
    }
}

/// The address of a container among those of its interfaces.
pub fn container_ipv4(interfaces: &Vec<Address>) -> (r: Option<String>)
    ensures
        r.deep_view() == own_address(interfaces@),
{
    assert(interfaces@.skip(0) =~= interfaces@);
    for i in 0..interfaces.len()
        invariant
            own_address(interfaces@) == own_address(interfaces@.skip(i as int)),
    {
        assert(interfaces@.skip(i as int)[0] == interfaces@[i as int]);
        if let Address::V4(a, b, c, d) = interfaces[i] {
            if a != 127 && !(a == 169 && b == 254) && !(a == 0 && b == 0 && c == 0 && d == 0) {
                let front = text::cat4(
                    text::dec_u64(a as u64).as_str(),
                    ".",
                    text::dec_u64(b as u64).as_str(),
                    ".",
                );
                return Some(
                    text::cat4(
                        front.as_str(),
                        text::dec_u64(c as u64).as_str(),
                        ".",
                        text::dec_u64(d as u64).as_str(),
                    ),
                );
            }
        }
        assert(interfaces@.skip(i as int).skip(1) =~= interfaces@.skip(i + 1));
    }
    None
}

/// The port that a setting names.
pub open spec fn port(raw: Option<Seq<char>>) -> u16 {
    match raw {
        Some(s) => match text::number(text::trim(s)) {
            Some(n) => if n <= u16::MAX {
                n as u16
            } else {
                DEFAULT_PORT
            },
            None => DEFAULT_PORT,
        },
        None => DEFAULT_PORT,
    }
}

/// The port that a setting names, or the usual one.
pub fn parse_port(raw: Option<&str>) -> (r: u16)
    ensures
        r == port(raw.deep_view()),
{
    match raw {
        Some(s) => match text::parse_u64(text::trimmed(s).as_str()) {
            Some(n) => if n <= u16::MAX as u64 {
                n as u16
            } else {
                DEFAULT_PORT
            },
            None => DEFAULT_PORT,
        },
        None => DEFAULT_PORT,
    }
}

/// What is reported to the platform.
pub fn registration(ip: &str, port: u16) -> (r: Json)
    ensures
        r@ == JsonView::empty_object().with("ip"@, JsonView::Str(ip@)).with(
            "port"@,
            JsonView::of_u64(port as u64),
        ),
{
    Json::empty_object().with("ip", Json::of_str(ip)).with("port", Json::of_u64(port as u64))
}

/// What the platform said.
#[derive(Clone, Copy, Debug, PartialEq, Eq, Structural)]
pub enum Verdict {
    Registered,
    /// It refused in a way that another attempt cannot change.
    Refused,
    /// Another attempt may help.
    Retry,
}

/// What the status of a response says: a refusal is final, any other failure is not.
pub open spec fn verdict(status: u16) -> Verdict {
    if 200 <= status < 300 {
        Verdict::Registered
    } else if 400 <= status < 500 {
        Verdict::Refused
    } else {
        Verdict::Retry
    }
}

/// What the status of a response says.
pub fn judge_status(status: u16) -> (r: Verdict)
    ensures
        r == verdict(status),
{
    if 200 <= status && status < 300 {
        Verdict::Registered
    } else if 400 <= status && status < 500 {
        Verdict::Refused
    } else {
        Verdict::Retry
    }
}

/// The words of an error without the end of a long answer.
pub open spec fn clipped(body: Seq<char>) -> Seq<char> {
    if body.len() > 200 {
        body.take(200)
    } else {
        body
    }
}

/// The first 200 characters of an answer.
pub fn clip_body(body: &str) -> (r: String)
    ensures
        r@ == clipped(body@),
{
    let v = text::chars(body);
    if v.len() > 200 {
        let r = text::slice(v.as_slice(), 0, 200);
        assert(r@ =~= body@.take(200));
        r
    } else {
        body.to_owned()
    }
}

/// What follows an attempt.
#[derive(Clone, Copy, Debug, PartialEq, Eq, Structural)]
pub enum NextAttempt {
    /// The registration is over: whether it was accepted.
    Over(bool),
    /// Pause for so many seconds, then try again.
    Pause(u64),
}

/// A power of two.
pub open spec fn doubled(n: nat) -> nat
    decreases n,
{
    if n == 0 {
        1
    } else {
        2 * doubled((n - 1) as nat)
    }
}

/// The pause after an attempt that failed: doubled after each quick one, and long
/// after every other.
pub open spec fn pause_after(attempt: u32) -> nat {
    if attempt > FAST_ATTEMPTS || attempt == 0 {
        SLOW_RETRY_SECS as nat
    } else {
        BACKOFF_BASE_SECS as nat * doubled((attempt - 1) as nat)
    }
}

/// The attempts at a registration.
#[derive(Debug)]
pub struct Registration {
    attempt: u32,
}

impl Registration {
    /// The number of the attempt that is made now, from one. It stops behind the
    /// quick ones.
    pub closed spec fn attempt(&self) -> u32 {
        self.attempt
    }

    /// Before the first attempt.
    pub fn new() -> (r: Registration)
        ensures
            r.attempt() == 1,
    {
        Registration { attempt: 1 }
    }

    /// What follows an attempt. The platform's word is final; a failure never is.
    pub fn after(&mut self, verdict: Verdict) -> (r: NextAttempt)
        requires
            1 <= old(self).attempt() <= FAST_ATTEMPTS + 1,
        ensures
            1 <= final(self).attempt() <= FAST_ATTEMPTS + 1,
            match verdict {
                Verdict::Registered => r == NextAttempt::Over(true) && *final(self) == *old(self),
                Verdict::Refused => r == NextAttempt::Over(false) && *final(self) == *old(self),
                Verdict::Retry => {
                    &&& r matches NextAttempt::Pause(secs) && secs == pause_after(
                        old(self).attempt(),
                    )
                    &&& final(self).attempt() == if old(self).attempt() > FAST_ATTEMPTS {
                        old(self).attempt() as int
                    } else {
                        old(self).attempt() + 1
                    }
                },
            },
    {
        match verdict {
            Verdict::Registered => NextAttempt::Over(true),
            Verdict::Refused => NextAttempt::Over(false),
            Verdict::Retry => {
                if self.attempt > FAST_ATTEMPTS {
                    return NextAttempt::Pause(SLOW_RETRY_SECS);
                }
                let mut secs: u64 = BACKOFF_BASE_SECS;
                let mut i: u32 = 1;
                while i < self.attempt
                    invariant
                        1 <= i <= self.attempt <= FAST_ATTEMPTS,
                        secs == BACKOFF_BASE_SECS * doubled((i - 1) as nat),
                        secs <= 64,
                        i == 1 ==> secs <= 2,
                        i == 2 ==> secs <= 4,
                        i == 3 ==> secs <= 8,
                        i == 4 ==> secs <= 16,
                        i == 5 ==> secs <= 32,
                    decreases self.attempt - i,
                {
                    secs = secs * 2;
                    i = i + 1;
                    assert(doubled((i - 1) as nat) == 2 * doubled((i - 2) as nat));
                }
                self.attempt = self.attempt + 1;
                NextAttempt::Pause(secs)
            },
        }
    }
}

/// The quick attempts are 2, 4, 8, 16, 32 and 64 seconds apart; after them an attempt
/// comes every five minutes, without end.
pub proof fn pauses_double_then_stay(attempt: u32)
    requires
        attempt >= 1,
    ensures
        attempt == 1 ==> pause_after(attempt) == 2,
        1 < attempt <= FAST_ATTEMPTS ==> pause_after(attempt) == 2 * pause_after(
            (attempt - 1) as u32,
        ),
        attempt > FAST_ATTEMPTS ==> pause_after(attempt) == SLOW_RETRY_SECS,
{
}

} // verus!
