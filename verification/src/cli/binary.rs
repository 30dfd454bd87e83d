//! Where the executables of the agents are found.
use vstd::prelude::*;
use crate::agents;
use crate::agents::DriverKind;
use crate::cli::dsh_profile;
use crate::paths;
use crate::text;

verus! {

pub const CLAUDE_EXECUTABLE_ENV: &'static str = "CLAUDE_CODE_EXECUTABLE";

pub const CODEX_EXECUTABLE_ENV: &'static str = "CODEX_EXECUTABLE";

pub const DSH_EXECUTABLE_ENV: &'static str = "DSH_EXECUTABLE";

pub const CODEX_REQUIRED_PACKAGE: &'static str = "@openai/codex@0.155.0";

pub const DSH_REQUIRED_PACKAGE: &'static str = "@deepseek-ai/dsh@0.1.6-alpha.2";

pub const SDK_SCOPE: &'static str = "@anthropic-ai";

/// The seconds that a launcher gets to print its help.
pub const PROBE_TIMEOUT_SECS: u64 = 15;

/// A text that is not empty.
pub open spec fn nonempty(s: Option<Seq<char>>) -> Option<Seq<char>> {
    match s {
        Some(t) => if t.len() > 0 {
            Some(t)
        } else {
            None
        },
        None => None,
    }
}

/// The executable that is named outright: in the session's variables, or else in
/// the host's own.
pub open spec fn named(vars: Seq<(Seq<char>, Seq<char>)>, own: Option<Seq<char>>, name: Seq<char>) -> Option<
    Seq<char>,
> {
    match nonempty(dsh_profile::env(vars, name)) {
        Some(p) => Some(p),
        None => nonempty(own),
    }
}

/// The executable that is named outright. `own` is the host's own variable.
pub fn explicit_executable(runtime_env: &Vec<(String, String)>, own: Option<&str>, name: &str) -> (r:
    Option<String>)
    ensures
        r.deep_view() == named(runtime_env.deep_view(), own.deep_view(), name@),
{
    if let Some(p) = dsh_profile::env_get(runtime_env, name) {
        if !p.is_empty() {
            return Some(p.to_owned());
        }
    }
    match own {
        Some(p) => if p.is_empty() {
            None
        } else {
            Some(p.to_owned())
        },
        None => None,
    }
}

/// The answer for an executable that is named outright. `executable` tells whether
/// the path is an executable file.
pub fn check_explicit(name: &str, path: &str, executable: bool) -> (r: Result<String, String>)
    ensures
        match r {
            Ok(p) => executable && p@ == path@,
            Err(e) => !executable && e@ == name@ + "="@ + path@ + " is not an executable file"@,
        },
{
    if executable {
        Ok(path.to_owned())
    } else {
        Err(text::cat4(name, "=", path, " is not an executable file"))
    }
}

/// The name of an architecture in package names.
pub open spec fn arch_name(arch: Seq<char>) -> Seq<char> {
    if arch == "x86_64"@ {
        "x64"@
    } else if arch == "aarch64"@ {
        "arm64"@
    } else {
        arch
    }
}

/// The family that the packages are named after.
pub open spec fn family() -> Seq<char> {
    agents::family(agents::CLAUDE_CODE_ID@)
}

/// The adapter package.
pub open spec fn adapter() -> Seq<char> {
    "@agentclientprotocol/"@ + family() + "-agent-acp"@
}

/// The adapter package.
pub fn adapter_package() -> (r: String)
    ensures
        r@ == adapter(),
{
    text::cat3(
        "@agentclientprotocol/",
        agents::family_of(agents::CLAUDE_CODE_ID).as_str(),
        "-agent-acp",
    )
}

/// The packages for a platform, preferred first. On Linux both libc variants can be
/// installed side by side, and the wrong one crashes.
pub open spec fn packages(arch: Seq<char>, os: Seq<char>, musl: bool) -> Seq<Seq<char>> {
    let a = arch_name(arch);
    let sdk = family() + "-agent-sdk-"@;
    if os == "linux"@ {
        let glibc = sdk + "linux-"@ + a;
        if musl {
            seq![glibc + "-musl"@, glibc]
        } else {
            seq![glibc, glibc + "-musl"@]
        }
    } else if os == "macos"@ {
        seq![sdk + "darwin-"@ + a]
    } else if os == "windows"@ {
        seq![sdk + "win32-"@ + a]
    } else {
        seq![sdk + os + "-"@ + a]
    }
}

/// The packages for a platform, each with the name of its executable.
pub open spec fn package_binaries(arch: Seq<char>, os: Seq<char>, musl: bool) -> Seq<
    (Seq<char>, Seq<char>),
> {
    let file = if os == "windows"@ {
        family() + ".exe"@
    } else {
        family()
    };
    packages(arch, os, musl).map_values(|p: Seq<char>| (p, file))
}

/// The packages for a platform and the names of their executables, preferred
/// first. `musl` tells whether the host's libc is musl.
pub fn platform_package_binaries(arch: &str, os: &str, musl: bool) -> (r: Vec<(String, String)>)
    ensures
        r.deep_view() == package_binaries(arch@, os@, musl),
{
    let family = agents::family_of(agents::CLAUDE_CODE_ID);
    let a = if text::same(arch, "x86_64") {
        "x64"
    } else if text::same(arch, "aarch64") {
        "arm64"
    } else {
        arch
    };
    let file = if text::same(os, "windows") {
        text::cat2(family.as_str(), ".exe")
    } else {
        family.clone()
    };
    let sdk = text::cat2(family.as_str(), "-agent-sdk-");
    let mut out: Vec<(String, String)> = Vec::new();
    if text::same(os, "linux") {
        let glibc = text::cat3(sdk.as_str(), "linux-", a);
        let other = text::cat2(glibc.as_str(), "-musl");
        if musl {
            out.push((other, file.clone()));
            out.push((glibc, file.clone()));
        } else {
            out.push((glibc, file.clone()));
            out.push((other, file.clone()));
        }
    } else if text::same(os, "macos") {
        out.push((text::cat3(sdk.as_str(), "darwin-", a), file.clone()));
    } else if text::same(os, "windows") {
        out.push((text::cat3(sdk.as_str(), "win32-", a), file.clone()));
    } else {
        out.push((text::cat4(sdk.as_str(), os, "-", a), file.clone()));
    }
    assert(out.deep_view() =~= package_binaries(arch@, os@, musl));
    out
}

/// The directory of the packages under a prefix.
pub open spec fn modules(prefix: Seq<char>, windows: bool) -> Seq<char> {
    if windows {
        paths::below(prefix, "node_modules"@)
    } else {
        paths::below(paths::below(prefix, "lib"@), "node_modules"@)
    }
}

/// The directory of the packages under a prefix.
pub fn node_modules_dir(prefix: &str, windows: bool) -> (r: String)
    ensures
        r@ == modules(prefix@, windows),
{
    if windows {
        paths::join(prefix, "node_modules")
    } else {
        paths::join(paths::join(prefix, "lib").as_str(), "node_modules")
    }
}

/// Where the SDK packages lie when they are nested under the adapter.
pub open spec fn nested(prefix: Seq<char>, windows: bool) -> Seq<char> {
    paths::below(
        paths::below(paths::below(modules(prefix, windows), adapter()), "node_modules"@),
        SDK_SCOPE@,
    )
}

/// Where the SDK packages lie when they are hoisted beside the adapter.
pub open spec fn hoisted(prefix: Seq<char>, windows: bool) -> Seq<char> {
    paths::below(modules(prefix, windows), SDK_SCOPE@)
}

/// The executables under a directory of SDK packages.
pub open spec fn under(base: Seq<char>, binaries: Seq<(Seq<char>, Seq<char>)>) -> Seq<Seq<char>> {
    binaries.map_values(
        |b: (Seq<char>, Seq<char>)| paths::below(paths::below(base, b.0), b.1),
    )
}

/// The paths to try: for each prefix the nested packages first, then the hoisted.
pub open spec fn candidates(
    prefixes: Seq<Seq<char>>,
    binaries: Seq<(Seq<char>, Seq<char>)>,
    windows: bool,
) -> Seq<Seq<char>>
    decreases prefixes.len(),
{
    if prefixes.len() == 0 {
        Seq::empty()
    } else {
        candidates(prefixes.drop_last(), binaries, windows) + under(
            nested(prefixes.last(), windows),
            binaries,
        ) + under(hoisted(prefixes.last(), windows), binaries)
    }
}

/// Adds the executables under a directory of SDK packages.
fn add_under(out: &mut Vec<String>, base: &str, binaries: &Vec<(String, String)>)
    ensures
        final(out).deep_view() == old(out).deep_view() + under(base@, binaries.deep_view()),
{
    let ghost all = under(base@, binaries.deep_view());
    let ghost before = out.deep_view();
    assert(before + all.take(0) =~= before);
    for i in 0..binaries.len()
        invariant
            all == under(base@, binaries.deep_view()),
            all.len() == binaries@.len(),
            out.deep_view() == before + all.take(i as int),
    {
        let path = paths::join(
            paths::join(base, binaries[i].0.as_str()).as_str(),
            binaries[i].1.as_str(),
        );
        assert(binaries.deep_view()[i as int] == (binaries@[i as int].0@, binaries@[i as int].1@));
        assert(path@ == all[i as int]);
        text::push(out, path);
        assert(out.deep_view() =~= before + all.take(i + 1));
    }
    assert(all.take(binaries@.len() as int) =~= all);
}

/// The paths to try, preferred first.
pub fn candidate_paths(
    prefixes: &Vec<String>,
    package_binaries: &Vec<(String, String)>,
    windows: bool,
) -> (r: Vec<String>)
    ensures
        r.deep_view() == candidates(
            prefixes.deep_view(),
            package_binaries.deep_view(),
            windows,
        ),
{
    let mut out: Vec<String> = Vec::new();
    let adapter = adapter_package();
    let ghost all = prefixes.deep_view();
    let ghost b = package_binaries.deep_view();
    assert(out.deep_view() =~= candidates(all.take(0), b, windows));
    for i in 0..prefixes.len()
        invariant
            all == prefixes.deep_view(),
            b == package_binaries.deep_view(),
            adapter@ == self::adapter(),
            out.deep_view() == candidates(all.take(i as int), b, windows),
    {
        assert(all.take(i + 1).drop_last() =~= all.take(i as int));
        assert(all.take(i + 1).last() == prefixes@[i as int]@);
        let dir = node_modules_dir(prefixes[i].as_str(), windows);
        let inner = paths::join(
            paths::join(paths::join(dir.as_str(), adapter.as_str()).as_str(), "node_modules").as_str(),
            SDK_SCOPE,
        );
        let outer = paths::join(dir.as_str(), SDK_SCOPE);
        add_under(&mut out, inner.as_str(), package_binaries);
        add_under(&mut out, outer.as_str(), package_binaries);
    }
    assert(all.take(all.len() as int) =~= all);
    out
}

/// The position of the first candidate that is an executable file.
pub open spec fn first_set(flags: Seq<bool>, n: int) -> Option<int>
    decreases flags.len() - n,
{
    if n >= flags.len() || n < 0 {
        None
    } else if flags[n] {
        Some(n)
    } else {
        first_set(flags, n + 1)
    }
}

/// The first candidate that is an executable file. `executable` tells for each
/// candidate whether it is one.
pub fn first_executable(candidates: &Vec<String>, executable: &Vec<bool>) -> (r: Option<String>)
    requires
        candidates@.len() == executable@.len(),
    ensures
        match first_set(executable@, 0) {
            Some(i) => r matches Some(p) && 0 <= i < candidates@.len() && p@ == candidates@[i]@,
            None => r is None,
        },
{
    for i in 0..candidates.len()
        invariant
            candidates@.len() == executable@.len(),
            first_set(executable@, 0) == first_set(executable@, i as int),
    {
        if executable[i] {
            return Some(candidates[i].clone());
        }
    }
    None
}

/// The answer where none of the candidates is an executable file.
pub open spec fn no_candidate(candidates: Seq<Seq<char>>) -> Seq<char> {
    agents::called(DriverKind::Stream) + " native binary not found; install "@ + adapter()
        + " or set "@ + CLAUDE_EXECUTABLE_ENV@ + " (looked in: "@ + text::join(candidates, ", "@)
        + ")"@
}

/// The answer where none of the candidates is an executable file.
pub fn claude_not_found(candidates: &Vec<String>) -> (r: String)
    ensures
        r@ == no_candidate(candidates.deep_view()),
{
    let head = text::cat5(
        agents::name_of(DriverKind::Stream).as_str(),
        " native binary not found; install ",
        adapter_package().as_str(),
        " or set ",
        CLAUDE_EXECUTABLE_ENV,
    );
    text::cat4(head.as_str(), " (looked in: ", text::joined(candidates, ", ").as_str(), ")")
}

/// The answer where a launcher is nowhere to be found.
pub open spec fn not_found(program: Seq<char>, package: Seq<char>, name: Seq<char>) -> Seq<char> {
    program + " not found on PATH or in the npm global prefix; install "@ + package
        + " (npm install -g) or set "@ + name
}

/// The answer where a launcher is nowhere to be found.
fn launcher_not_found(program: &str, package: &str, name: &str) -> (r: String)
    ensures
        r@ == not_found(program@, package@, name@),
{
    text::cat2(
        text::cat4(
            program,
            " not found on PATH or in the npm global prefix; install ",
            package,
            " (npm install -g) or set ",
        ).as_str(),
        name,
    )
}

/// The executable of an agent with native packages: the one named outright, which must
/// be an executable file, or the first candidate that is one.
pub fn resolve_claude_executable(
    explicit: Option<&str>,
    explicit_is_executable: bool,
    candidates: &Vec<String>,
    executable: &Vec<bool>,
) -> (r: Result<String, String>)
    requires
        candidates@.len() == executable@.len(),
    ensures
        match explicit {
            Some(p) => match r {
                Ok(path) => explicit_is_executable && path@ == p@,
                Err(e) => !explicit_is_executable && e@ == CLAUDE_EXECUTABLE_ENV@ + "="@ + p@
                    + " is not an executable file"@,
            },
            None => match first_set(executable@, 0) {
                Some(i) => r matches Ok(path) && 0 <= i < candidates@.len() && path@
                    == candidates@[i]@,
                None => r matches Err(e) && e@ == no_candidate(candidates.deep_view()),
            },
        },
{
    match explicit {
        Some(p) => check_explicit(CLAUDE_EXECUTABLE_ENV, p, explicit_is_executable),
        None => match first_executable(candidates, executable) {
            Some(path) => Ok(path),
            None => Err(claude_not_found(candidates)),
        },
    }
}

/// The Codex launcher: the one named outright, or the one that was located.
pub fn resolve_codex_executable(
    explicit: Option<&str>,
    explicit_is_executable: bool,
    located: Option<&str>,
) -> (r: Result<String, String>)
    ensures
        match explicit {
            Some(p) => match r {
                Ok(path) => explicit_is_executable && path@ == p@,
                Err(e) => !explicit_is_executable && e@ == CODEX_EXECUTABLE_ENV@ + "="@ + p@
                    + " is not an executable file"@,
            },
            None => match located {
                Some(p) => r matches Ok(path) && path@ == p@,
                None => r matches Err(e) && e@ == not_found(
                    "codex"@,
                    CODEX_REQUIRED_PACKAGE@,
                    CODEX_EXECUTABLE_ENV@,
                ),
            },
        },
{
    match explicit {
        Some(p) => check_explicit(CODEX_EXECUTABLE_ENV, p, explicit_is_executable),
        None => match located {
            Some(p) => Ok(p.to_owned()),
            None => Err(
                launcher_not_found("codex", CODEX_REQUIRED_PACKAGE, CODEX_EXECUTABLE_ENV),
            ),
        },
    }
}

/// The DeepSeek Harness launcher, before it is probed: the one named outright, or
/// the one that was located.
pub fn resolve_dsh_executable(
    explicit: Option<&str>,
    explicit_is_executable: bool,
    located: Option<&str>,
) -> (r: Result<String, String>)
    ensures
        match explicit {
            Some(p) => match r {
                Ok(path) => explicit_is_executable && path@ == p@,
                Err(e) => !explicit_is_executable && e@ == DSH_EXECUTABLE_ENV@ + "="@ + p@
                    + " is not an executable file"@,
            },
            None => match located {
                Some(p) => r matches Ok(path) && path@ == p@,
                None => r matches Err(e) && e@ == not_found(
                    "dsh"@,
                    DSH_REQUIRED_PACKAGE@,
                    DSH_EXECUTABLE_ENV@,
                ),
            },
        },
{
    match explicit {
        Some(p) => check_explicit(DSH_EXECUTABLE_ENV, p, explicit_is_executable),
        None => match located {
            Some(p) => Ok(p.to_owned()),
            None => Err(launcher_not_found("dsh", DSH_REQUIRED_PACKAGE, DSH_EXECUTABLE_ENV)),
        },
    }
}

/// Whether a help text names the options that a turn needs.
pub open spec fn capable(help: Seq<char>) -> bool {
    text::contains(help, "--json"@) && text::contains(help, "--session-id"@)
}

/// The answer for a launcher that is too old.
pub open spec fn too_old(bin: Seq<char>) -> Seq<char> {
    bin + " does not support `--json` / `--session-id`; upgrade to "@ + DSH_REQUIRED_PACKAGE@
}

/// Checks that a launcher's help names the options that a turn needs.
pub fn check_help_text(bin: &str, help: &str) -> (r: Result<(), String>)
    ensures
        match r {
            Ok(_) => capable(help@),
            Err(e) => !capable(help@) && e@ == too_old(bin@),
        },
{
    if text::has(help, "--json") && text::has(help, "--session-id") {
        Ok(())
    } else {
        Err(
            text::cat3(
                bin,
                " does not support `--json` / `--session-id`; upgrade to ",
                DSH_REQUIRED_PACKAGE,
            ),
        )
    }
}

/// What the probe of a launcher brought.
#[derive(Debug)]
pub enum ProbeRun {
    /// It answered: standard output and error output.
    Output { stdout: String, stderr: String },
    /// It could not be run.
    Failed(String),
    /// It did not answer in time.
    TimedOut,
}

/// The verdict on a launcher from what its probe brought.
pub fn judge_probe(bin: &str, run: &ProbeRun) -> (r: Result<(), String>)
    ensures
        match run {
            ProbeRun::Output { stdout, stderr } => match r {
                Ok(_) => capable(stdout@ + "\n"@ + stderr@),
                Err(e) => !capable(stdout@ + "\n"@ + stderr@) && e@ == too_old(bin@),
            },
            ProbeRun::Failed(why) => r matches Err(e) && e@ == "could not run "@ + bin@ + ": "@
                + why@,
            ProbeRun::TimedOut => r matches Err(e) && e@ == bin@
                + " did not answer `--profile headless --help` within "@ + text::dec(
                PROBE_TIMEOUT_SECS as nat,
            ) + "s"@,
        },
{
    match run {
        ProbeRun::Output { stdout, stderr } => check_help_text(
            bin,
            text::cat3(stdout.as_str(), "\n", stderr.as_str()).as_str(),
        ),
        ProbeRun::Failed(why) => Err(text::cat4("could not run ", bin, ": ", why.as_str())),
        ProbeRun::TimedOut => Err(
            text::cat4(
                bin,
                " did not answer `--profile headless --help` within ",
                text::dec_u64(PROBE_TIMEOUT_SECS).as_str(),
                "s",
            ),
        ),
    }
}

/// The verdict on a launcher as it was at a time.
#[derive(Debug)]
pub struct ProbeEntry {
    pub bin: String,
    /// When the file was last changed, where that is known.
    pub mtime: Option<u64>,
    /// What was wrong with it, if anything was.
    pub failure: Option<String>,
}

/// The verdicts on launchers, failures too.
pub struct ProbeCache {
    entries: Vec<ProbeEntry>,
}

/// What is known of a launcher: when it was changed and what was wrong.
pub struct Verdict {
    pub mtime: Option<u64>,
    pub failure: Option<Seq<char>>,
}

/// The newest verdict on a launcher.
pub open spec fn newest(entries: Seq<ProbeEntry>, bin: Seq<char>) -> Option<Verdict>
    decreases entries.len(),
{
    if entries.len() == 0 {
        None
    } else if entries.last().bin@ == bin {
        Some(
            Verdict {
                mtime: entries.last().mtime,
                failure: entries.last().failure.deep_view(),
            },
        )
    } else {
        newest(entries.drop_last(), bin)
    }
}

/// The verdict on a launcher that still counts: the file has not changed since.
pub open spec fn still_valid(v: Option<Verdict>, mtime: Option<u64>) -> Option<Option<Seq<char>>> {
    match v {
        Some(v) => if v.mtime == mtime {
            Some(v.failure)
        } else {
            None
        },
        None => None,
    }
}

impl ProbeCache {
    /// The newest verdict on a launcher.
    pub closed spec fn verdict(&self, bin: Seq<char>) -> Option<Verdict> {
        newest(self.entries@, bin)
    }

    /// The cache without verdicts.
    pub fn new() -> (r: ProbeCache)
        ensures
            forall|bin: Seq<char>| r.verdict(bin) is None,
    {
        ProbeCache { entries: Vec::new() }
    }

    /// The verdict on a launcher that still counts: `Some(None)` for a launcher
    /// that is good.
    pub fn cached_probe(&self, bin: &str, mtime: Option<u64>) -> (r: Option<Option<String>>)
        ensures
            match still_valid(self.verdict(bin@), mtime) {
                Some(failure) => r matches Some(f) && f.deep_view() == failure,
                None => r is None,
            },
    {
        let mut i: usize = self.entries.len();
        assert(self.entries@.take(i as int) =~= self.entries@);
        while i > 0
            invariant
                i <= self.entries@.len(),
                newest(self.entries@, bin@) == newest(self.entries@.take(i as int), bin@),
            decreases i,
        {
            let ghost here = self.entries@.take(i as int);
            assert(here.last() == self.entries@[i - 1]);
            assert(here.drop_last() =~= self.entries@.take(i - 1));
            if text::same(self.entries[i - 1].bin.as_str(), bin) {
                if self.entries[i - 1].mtime == mtime {
                    return Some(text::copied(&self.entries[i - 1].failure));
                }
                return None;
            }
            i = i - 1;
        }
        None
    }

    /// Keeps a verdict.
    pub fn store(&mut self, bin: &str, mtime: Option<u64>, failure: Option<String>)
        ensures
            final(self).verdict(bin@) == Some(Verdict { mtime, failure: failure.deep_view() }),
            forall|other: Seq<char>|
                other != bin@ ==> final(self).verdict(other) == old(self).verdict(other),
    {
        let ghost before = self.entries@;
        self.entries.push(ProbeEntry { bin: bin.to_owned(), mtime, failure });
        assert(self.entries@.drop_last() =~= before);
    }
}

/// A verdict is given again while the launcher stays as it was, and a changed
/// launcher is probed anew.
pub proof fn verdict_lasts_until_the_file_changes(v: Verdict, mtime: Option<u64>)
    ensures
        still_valid(Some(v), v.mtime) == Some(v.failure),
        mtime != v.mtime ==> still_valid(Some(v), mtime) is None,
{
}

/// The nested package of a prefix is tried before its hoisted one.
pub proof fn nested_comes_first(
    prefix: Seq<char>,
    binary: (Seq<char>, Seq<char>),
    windows: bool,
)
    ensures
        candidates(seq![prefix], seq![binary], windows) == seq![
            paths::below(paths::below(nested(prefix, windows), binary.0), binary.1),
            paths::below(paths::below(hoisted(prefix, windows), binary.0), binary.1),
        ],
{
    reveal_with_fuel(candidates, 2);
    assert(seq![prefix].drop_last() =~= Seq::empty());
    assert(candidates(seq![prefix], seq![binary], windows) =~= seq![
        paths::below(paths::below(nested(prefix, windows), binary.0), binary.1),
        paths::below(paths::below(hoisted(prefix, windows), binary.0), binary.1),
    ]);
}

/// The packages that are looked for are those of the agent's family, which are the six
/// characters before the underscore of its id: the adapter, and for each platform its
/// SDK packages and their program.
pub proof fn packages_are_those_of_the_family(arch: Seq<char>, os: Seq<char>, musl: bool)
    ensures
        ({
            let name = "claude_code"@.take(6);
            let p = package_binaries(arch, os, musl);
            let file = if os == "windows"@ {
                name + ".exe"@
            } else {
                name
            };
            let glibc = name + "-agent-sdk-"@ + "linux-"@ + arch_name(arch);
            &&& adapter() == "@agentclientprotocol/"@ + name + "-agent-acp"@
            &&& os == "linux"@ && !musl ==> p == seq![(glibc, file), (glibc + "-musl"@, file)]
            &&& os == "linux"@ && musl ==> p == seq![(glibc + "-musl"@, file), (glibc, file)]
            &&& os == "macos"@ ==> p == seq![
                (name + "-agent-sdk-"@ + "darwin-"@ + arch_name(arch), file),
            ]
            &&& os == "windows"@ ==> p == seq![
                (name + "-agent-sdk-"@ + "win32-"@ + arch_name(arch), file),
            ]
        }),
{
    agents::names_follow_from_the_id();
    reveal_strlit("linux");
    reveal_strlit("macos");
    reveal_strlit("windows");
    assert("linux"@.len() == 5 && "macos"@.len() == 5 && "windows"@.len() == 7);
    assert("linux"@[0] == 'l' && "macos"@[0] == 'm');
    let p = package_binaries(arch, os, musl);
    let l = packages(arch, os, musl);
    assert(p.len() == l.len());
}

} // verus!
