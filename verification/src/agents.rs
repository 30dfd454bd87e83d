//! The agents that can be driven.
use vstd::prelude::*;
use crate::text;

verus! {

/// An agent.
#[derive(Clone, Copy, Debug, PartialEq, Eq, Structural)]
pub enum AgentType {
    ClaudeCode,
    DeepSeek,
    Codex,
    OpenClaw,
    Pi,
    Hermes,
}

/// How the process behind a connection is run.
#[derive(Clone, Copy, Debug, PartialEq, Eq, Structural)]
pub enum ConnectionTransport {
    Acp,
    Cli,
}

/// Whether an agent can be driven by its command line.
pub open spec fn on_cli(agent: AgentType) -> bool {
    agent == AgentType::ClaudeCode || agent == AgentType::DeepSeek || agent == AgentType::Codex
}

/// Whether an agent can be driven by its command line.
pub fn runs_on_cli(agent: AgentType) -> (r: bool)
    ensures
        r == on_cli(agent),
{
    agent == AgentType::ClaudeCode || agent == AgentType::DeepSeek || agent == AgentType::Codex
}

/// Which driver runs the turns of a connection.
#[derive(Clone, Copy, Debug, PartialEq, Eq, Structural)]
pub enum DriverKind {
    Stream,
    Dsh,
    Codex,
}

/// Which driver runs the turns of an agent.
pub open spec fn driver_of(agent: AgentType) -> DriverKind {
    match agent {
        AgentType::DeepSeek => DriverKind::Dsh,
        AgentType::Codex => DriverKind::Codex,
        _ => DriverKind::Stream,
    }
}

/// Which driver runs the turns of an agent.
pub fn driver_kind(agent: AgentType) -> (r: DriverKind)
    ensures
        r == driver_of(agent),
{
    match agent {
        AgentType::DeepSeek => DriverKind::Dsh,
        AgentType::Codex => DriverKind::Codex,
        _ => DriverKind::Stream,
    }
}

pub const CLAUDE_CODE_ID: &'static str = "claude_code";

pub const DEEPSEEK_ID: &'static str = "deepseek";

pub const CODEX_ID: &'static str = "codex";

/// The id of an agent that can be driven by its command line.
pub open spec fn cli_id(agent: AgentType) -> Option<Seq<char>> {
    match agent {
        AgentType::ClaudeCode => Some(CLAUDE_CODE_ID@),
        AgentType::DeepSeek => Some(DEEPSEEK_ID@),
        AgentType::Codex => Some(CODEX_ID@),
        _ => None,
    }
}

/// The id of an agent that can be driven by its command line.
pub fn id_of(agent: AgentType) -> (r: Option<&'static str>)
    ensures
        r.deep_view() == cli_id(agent),
{
    match agent {
        AgentType::ClaudeCode => Some(CLAUDE_CODE_ID),
        AgentType::DeepSeek => Some(DEEPSEEK_ID),
        AgentType::Codex => Some(CODEX_ID),
        _ => None,
    }
}

/// The family of an agent: the part of its id before the first underscore. Its
/// packages and its program are named after it.
pub open spec fn family(id: Seq<char>) -> Seq<char> {
    text::split(id, '_')[0]
}

/// The family of an agent.
pub fn family_of(id: &str) -> (r: String)
    ensures
        r@ == family(id@),
{
    let pieces = text::split_on(id, '_');
    proof {
        text::split_is_nonempty(id@, '_');
        assert(pieces.deep_view().len() == pieces@.len());
        assert(pieces.deep_view()[0] == pieces@[0]@);
    }
    pieces[0].clone()
}

/// A word that begins with a capital.
pub open spec fn capitalized(s: Seq<char>) -> Seq<char> {
    if s.len() > 0 && 'a' <= s[0] <= 'z' {
        seq![(s[0] as u32 - 32) as char] + s.skip(1)
    } else {
        s
    }
}

/// A word that begins with a capital.
fn capitalize(s: &str) -> (r: String)
    ensures
        r@ == capitalized(s@),
{
    let v = text::chars(s);
    if v.len() > 0 && 'a' <= v[0] && v[0] <= 'z' {
        let mut out = String::new();
        out.push((v[0] as u8 - 32) as char);
        out.push_str(text::slice(v.as_slice(), 1, v.len()).as_str());
        assert(out@ =~= capitalized(s@));
        out
    } else {
        s.to_owned()
    }
}

/// The words of an id, each with a capital.
pub open spec fn title(id: Seq<char>) -> Seq<char> {
    text::join(text::split(id, '_').map_values(|w: Seq<char>| capitalized(w)), " "@)
}

/// The words of an id, each with a capital.
fn title_of(id: &str) -> (r: String)
    ensures
        r@ == title(id@),
{
    let pieces = text::split_on(id, '_');
    let ghost all = pieces.deep_view().map_values(|w: Seq<char>| capitalized(w));
    let mut words: Vec<String> = Vec::new();
    for i in 0..pieces.len()
        invariant
            all == pieces.deep_view().map_values(|w: Seq<char>| capitalized(w)),
            words.deep_view() == all.take(i as int),
    {
        let word = capitalize(pieces[i].as_str());
        assert(word@ == all[i as int]);
        text::push(&mut words, word);
        assert(words.deep_view() =~= all.take(i + 1));
    }
    assert(all.take(pieces@.len() as int) =~= all);
    text::joined(words.as_slice(), " ")
}

/// What messages call the program behind a driver.
pub open spec fn called(driver: DriverKind) -> Seq<char> {
    match driver {
        DriverKind::Stream => title(CLAUDE_CODE_ID@),
        DriverKind::Dsh => "DeepSeek Harness"@,
        DriverKind::Codex => "Codex"@,
    }
}

/// What messages call the program behind a driver.
pub fn name_of(driver: DriverKind) -> (r: String)
    ensures
        r@ == called(driver),
{
    match driver {
        DriverKind::Stream => title_of(CLAUDE_CODE_ID),
        DriverKind::Dsh => "DeepSeek Harness".to_owned(),
        DriverKind::Codex => "Codex".to_owned(),
    }
}

/// The names that follow from the id of the agent with native packages: its family are
/// the six characters before the underscore, and messages call it by its two words,
/// each with a capital.
pub proof fn names_follow_from_the_id()
    ensures
        cli_id(AgentType::ClaudeCode) == Some("claude_code"@),
        family("claude_code"@) == "claude_code"@.take(6),
        called(DriverKind::Stream) == seq!['C'] + "claude_code"@.subrange(1, 6) + seq![' ', 'C']
            + "claude_code"@.subrange(8, 11),
{
    let id = "claude_code"@;
    reveal_strlit("claude_code");
    reveal_strlit(" ");
    let a = id.take(6);
    let b = id.skip(7);
    assert(id =~= a.push('_') + b);
    text::split_in_two(a, '_', b);
    let words = text::split(id, '_').map_values(|w: Seq<char>| capitalized(w));
    assert(words =~= seq![capitalized(a), capitalized(b)]);
    text::join_from_front(words, " "@);
    assert(words.skip(1) =~= seq![capitalized(b)]);
    assert(text::join(words.skip(1), " "@) == capitalized(b));
    assert(capitalized(a) =~= seq!['C'] + id.subrange(1, 6));
    assert(capitalized(b) =~= seq!['C'] + id.subrange(8, 11));
    assert(title(id) =~= seq!['C'] + id.subrange(1, 6) + seq![' ', 'C'] + id.subrange(8, 11));
}

} // verus!
