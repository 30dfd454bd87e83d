//! Skills that the platform hands out, kept in step with the platform's list.
//!
//! For every skill three digests count: what the platform wants, what was installed
//! last, and what is on disk. What is on disk and was not installed belongs to the
//! user and is backed up before it is replaced. Only what was installed and is listed
//! no longer is removed: a skill that arrives damaged stays as it is.
use vstd::prelude::*;
use vstd::utf8::*;
use crate::chat::webhook;
use crate::chat::webhook::WebhookConfig;
use crate::digest;
use crate::text;

verus! {

/// The path of the endpoint that lists the skills.
pub const SKILLS_PATH: &'static str = "/api/codeg/skills";

/// The shortest and the longest pause between two runs, in seconds.
pub const SYNC_MIN_SECS: u64 = 600;

pub const SYNC_MAX_SECS: u64 = 900;

/// The longest name of a skill in bytes.
pub const MAX_SLUG_BYTES: usize = 63;

/// The endpoint that lists the skills; nothing where the instance is not managed.
pub fn skills_endpoint(hooks: &Vec<WebhookConfig>) -> (r: Option<String>)
    ensures
        r.deep_view() == webhook::endpoint(hooks@, SKILLS_PATH@),
{
    webhook::derive_endpoint(hooks, SKILLS_PATH)
}

/// `rand::Rng::gen_range` over an inclusive range: some number in the range.
#[verifier::external_body]
fn random_between(low: u64, high: u64) -> (r: u64)
    requires
        low <= high,
    ensures
        low <= r <= high,
{
    rand::Rng::gen_range(&mut rand::thread_rng(), low..=high)
}

/// The pause before the next run, in seconds. It differs from instance to instance,
/// so that they do not all ask at once.
pub fn sync_pause() -> (r: u64)
    ensures
        SYNC_MIN_SECS <= r <= SYNC_MAX_SECS,
{
    random_between(SYNC_MIN_SECS, SYNC_MAX_SECS)
}

/// The digest of a text in hexadecimal.
pub open spec fn text_digest(s: Seq<char>) -> Seq<char> {
    digest::hex(digest::sha256_digest(encode_utf8(s)))
}

/// The digest of a text in hexadecimal.
pub fn hash_str(s: &str) -> (r: String)
    ensures
        r@ == text_digest(s@),
{
    let bytes = digest::sha256(s.as_bytes());
    let n = bytes.len();
    assert(bytes@.take(n as int) =~= bytes@);
    digest::to_hex(&bytes, n)
}

/// Whether a character may stand in the name of a skill.
pub open spec fn slug_char(c: char) -> bool {
    'a' <= c <= 'z' || '0' <= c <= '9' || c == '-'
}

/// Whether a text can be the name of a skill and of its directory: it holds small
/// letters, digits and dashes, does not begin with a dash, and is not too long.
pub open spec fn good_slug(s: Seq<char>) -> bool {
    &&& 0 < s.len() <= MAX_SLUG_BYTES
    &&& s[0] != '-'
    &&& forall|i: int| 0 <= i < s.len() ==> slug_char(#[trigger] s[i])
}

/// Whether a text can be the name of a skill.
pub fn slug_ok(slug: &str) -> (r: bool)
    ensures
        r == good_slug(slug@),
{
    let v = text::chars(slug);
    if v.len() == 0 || v.len() > MAX_SLUG_BYTES || v[0] == '-' {
        return false;
    }
    for i in 0..v.len()
        invariant
            v@ == slug@,
            forall|j: int| 0 <= j < i ==> slug_char(#[trigger] v@[j]),
    {
        let c = v[i];
        if !(('a' <= c && c <= 'z') || ('0' <= c && c <= '9') || c == '-') {
            assert(!slug_char(slug@[i as int]));
            return false;
        }
    }
    true
}

/// A skill as the platform lists it.
#[derive(Debug)]
pub struct RemoteSkill {
    pub slug: String,
    pub hash: String,
    pub content: String,
}

/// The content of a `RemoteSkill`.
#[verifier::ext_equal]
pub struct SkillView {
    pub slug: Seq<char>,
    pub hash: Seq<char>,
    pub content: Seq<char>,
}

impl View for RemoteSkill {
    type V = SkillView;

    open spec fn view(&self) -> SkillView {
        SkillView { slug: self.slug@, hash: self.hash@, content: self.content@ }
    }
}

impl DeepView for RemoteSkill {
    type V = SkillView;

    open spec fn deep_view(&self) -> SkillView {
        self@
    }
}

/// The platform's answer. Only a list that is there and empty says that there are no
/// skills.
#[derive(Debug)]
pub struct RemoteEnvelope {
    pub code: i64,
    pub skills: Option<Vec<RemoteSkill>>,
    pub msg: Option<String>,
}

/// What is known of a skill that was installed.
#[derive(Debug, PartialEq, Eq)]
pub struct ManifestEntry {
    /// The digest of what was written.
    pub hash: String,
    pub installed_at: String,
    pub pending_user_review: bool,
}

/// The content of a `ManifestEntry`.
#[verifier::ext_equal]
pub struct EntryView {
    pub hash: Seq<char>,
    pub installed_at: Seq<char>,
    pub pending_user_review: bool,
}

impl View for ManifestEntry {
    type V = EntryView;

    open spec fn view(&self) -> EntryView {
        EntryView {
            hash: self.hash@,
            installed_at: self.installed_at@,
            pending_user_review: self.pending_user_review,
        }
    }
}

impl DeepView for ManifestEntry {
    type V = EntryView;

    open spec fn deep_view(&self) -> EntryView {
        self@
    }
}

/// What came of a run.
#[derive(Debug, PartialEq, Eq)]
pub struct SyncReport {
    pub installed: usize,
    pub updated: usize,
    pub removed: usize,
    pub backed_up: Vec<String>,
    pub errors: Vec<String>,
}

/// The content of a `SyncReport`. Counts stop at the largest number.
#[verifier::ext_equal]
pub struct SyncReportView {
    pub installed: nat,
    pub updated: nat,
    pub removed: nat,
    pub backed_up: Seq<Seq<char>>,
    pub errors: Seq<Seq<char>>,
}

impl View for SyncReport {
    type V = SyncReportView;

    open spec fn view(&self) -> SyncReportView {
        SyncReportView {
            installed: self.installed as nat,
            updated: self.updated as nat,
            removed: self.removed as nat,
            backed_up: self.backed_up.deep_view(),
            errors: self.errors.deep_view(),
        }
    }
}

/// The report of a run that did nothing.
pub open spec fn quiet() -> SyncReportView {
    SyncReportView {
        installed: 0,
        updated: 0,
        removed: 0,
        backed_up: Seq::empty(),
        errors: Seq::empty(),
    }
}

impl SyncReport {
    /// The report of a run that did nothing.
    pub fn new() -> (r: SyncReport)
        ensures
            r@ == quiet(),
    {
        let backed_up: Vec<String> = Vec::new();
        let errors: Vec<String> = Vec::new();
        assert(backed_up.deep_view() =~= Seq::empty());
        assert(errors.deep_view() =~= Seq::empty());
        SyncReport { installed: 0, updated: 0, removed: 0, backed_up, errors }
    }

    /// The report of a run that stopped at an error before it touched anything.
    pub fn stopped(error: String) -> (r: SyncReport)
        ensures
            r@ == (SyncReportView { errors: seq![error@], ..quiet() }),
    {
        let mut r = SyncReport::new();
        text::push(&mut r.errors, error);
        assert(r.errors.deep_view() =~= seq![error@]);
        r
    }
}

/// What was asked of the platform.
#[derive(Debug)]
pub enum Fetch {
    /// There was no answer.
    Failed(String),
    /// The answer was no success; its status line.
    Status(String),
    /// The answer could not be read.
    Unreadable(String),
    /// The answer could not be understood.
    Malformed(String),
    Answered(RemoteEnvelope),
}

/// What the platform's answer says: the skills, or why nothing is to be touched.
pub open spec fn fetched(f: Fetch) -> Result<Seq<SkillView>, Seq<char>> {
    match f {
        Fetch::Failed(e) => Err("fetch failed: "@ + e@),
        Fetch::Status(line) => Err("fetch HTTP "@ + line@),
        Fetch::Unreadable(e) => Err("read body failed: "@ + e@),
        Fetch::Malformed(e) => Err("parse failed: "@ + e@),
        Fetch::Answered(env) => if env.code != 0 {
            Err(
                "platform error: "@ + match env.msg {
                    Some(m) => m@,
                    None => ""@,
                },
            )
        } else {
            match env.skills {
                Some(s) => Ok(s.deep_view()),
                None => Err("platform error: no skill list"@),
            }
        },
    }
}

/// The skills that the platform lists. Whatever else it said is no list: a run that
/// gets none stops, and leaves everything as it is.
pub fn read_fetch(f: Fetch) -> (r: Result<Vec<RemoteSkill>, SyncReport>)
    ensures
        match fetched(f) {
            Ok(skills) => r matches Ok(s) && s.deep_view() == skills,
            Err(e) => r matches Err(x) && x@ == (SyncReportView { errors: seq![e], ..quiet() }),
        },
{
    match f {
        Fetch::Failed(e) => Err(SyncReport::stopped(text::cat2("fetch failed: ", e.as_str()))),
        Fetch::Status(line) => Err(SyncReport::stopped(text::cat2("fetch HTTP ", line.as_str()))),
        Fetch::Unreadable(e) => Err(
            SyncReport::stopped(text::cat2("read body failed: ", e.as_str())),
        ),
        Fetch::Malformed(e) => Err(SyncReport::stopped(text::cat2("parse failed: ", e.as_str()))),
        Fetch::Answered(env) => {
            if env.code != 0 {
                let msg = match env.msg {
                    Some(m) => m,
                    None => "".to_owned(),
                };
                return Err(SyncReport::stopped(text::cat2("platform error: ", msg.as_str())));
            }
            match env.skills {
                Some(s) => Ok(s),
                None => Err(SyncReport::stopped("platform error: no skill list".to_owned())),
            }
        },
    }
}

/// What is known of the skills that were installed, by name, in a fixed order.
pub type ManifestView = Seq<(Seq<char>, EntryView)>;

/// What is known of a skill.
pub open spec fn entry_of(m: ManifestView, slug: Seq<char>) -> Option<EntryView>
    decreases m.len(),
{
    if m.len() == 0 {
        None
    } else if m.last().0 == slug {
        Some(m.last().1)
    } else {
        entry_of(m.drop_last(), slug)
    }
}

/// A manifest without a skill.
pub open spec fn without(m: ManifestView, slug: Seq<char>) -> ManifestView
    decreases m.len(),
{
    if m.len() == 0 {
        m
    } else if m.last().0 == slug {
        without(m.drop_last(), slug)
    } else {
        without(m.drop_last(), slug).push(m.last())
    }
}

/// A manifest with an entry for a skill.
pub open spec fn recorded(m: ManifestView, slug: Seq<char>, e: EntryView) -> ManifestView {
    without(m, slug).push((slug, e))
}

/// Whether the platform lists a skill under this name, be it in order or not.
pub open spec fn is_listed(remote: Seq<SkillView>, slug: Seq<char>) -> bool {
    exists|i: int| 0 <= i < remote.len() && #[trigger] remote[i].slug == slug
}

/// The skills of a manifest that the platform does not list.
pub open spec fn unlisted(m: ManifestView, remote: Seq<SkillView>) -> Seq<Seq<char>>
    decreases m.len(),
{
    if m.len() == 0 {
        Seq::empty()
    } else if is_listed(remote, m.last().0) {
        unlisted(m.drop_last(), remote)
    } else {
        unlisted(m.drop_last(), remote).push(m.last().0)
    }
}

/// What is wrong with a skill that the platform lists: its name is no name for a
/// directory, or its content is not what its digest says.
pub open spec fn skill_fault(s: SkillView) -> Option<Seq<char>> {
    if !good_slug(s.slug) {
        Some(s.slug + ": rejected slug"@)
    } else if text_digest(s.content) != s.hash {
        Some(s.slug + ": content/hash mismatch"@)
    } else {
        None
    }
}

/// What is wrong with a skill that the platform lists.
pub fn check_skill(s: &RemoteSkill) -> (r: Option<String>)
    ensures
        r.deep_view() == skill_fault(s@),
{
    if !slug_ok(s.slug.as_str()) {
        return Some(text::cat2(s.slug.as_str(), ": rejected slug"));
    }
    if !text::same(hash_str(s.content.as_str()).as_str(), s.hash.as_str()) {
        return Some(text::cat2(s.slug.as_str(), ": content/hash mismatch"));
    }
    None
}

/// Whether the directory of a skill has to be backed up before it is written: it
/// exists and is not what was installed.
pub open spec fn backup_needed(
    entry: Option<EntryView>,
    disk: Option<Seq<char>>,
    dir_exists: bool,
) -> bool {
    let known = match entry {
        Some(e) => e.hash,
        None => Seq::empty(),
    };
    let on_disk = match disk {
        Some(c) => text_digest(c),
        None => Seq::empty(),
    };
    dir_exists && (known.len() == 0 || on_disk != known)
}

/// What a run is busy with.
#[derive(Clone, Copy, Debug, PartialEq, Eq, Structural)]
pub enum Stage {
    Inspecting,
    Writing { existed: bool, backup: bool },
    Linking,
    Removing,
    Saving,
    Over,
}

/// What a run asks for.
#[derive(Debug)]
#[allow(inconsistent_fields)]
pub enum SyncAction {
    /// Read the file of a skill, and tell whether its directory exists.
    Inspect { slug: String },
    /// Write a skill; with `backup`, move its directory away before.
    Write { slug: String, content: String, backup: bool },
    /// Link a skill for every agent.
    Link { slug: String },
    /// Remove a skill and its links.
    Remove { slug: String },
    /// Save the manifest.
    Save,
    /// The run is over.
    Done,
    /// The input did not fit.
    Nothing,
}

/// The content of a `SyncAction`.
#[allow(inconsistent_fields)]
#[verifier::ext_equal]
pub enum SyncActionView {
    Inspect { slug: Seq<char> },
    Write { slug: Seq<char>, content: Seq<char>, backup: bool },
    Link { slug: Seq<char> },
    Remove { slug: Seq<char> },
    Save,
    Done,
    Nothing,
}

impl View for SyncAction {
    type V = SyncActionView;

    open spec fn view(&self) -> SyncActionView {
        match *self {
            SyncAction::Inspect { slug } => SyncActionView::Inspect { slug: slug@ },
            SyncAction::Write { slug, content, backup } => SyncActionView::Write {
                slug: slug@,
                content: content@,
                backup,
            },
            SyncAction::Link { slug } => SyncActionView::Link { slug: slug@ },
            SyncAction::Remove { slug } => SyncActionView::Remove { slug: slug@ },
            SyncAction::Save => SyncActionView::Save,
            SyncAction::Done => SyncActionView::Done,
            SyncAction::Nothing => SyncActionView::Nothing,
        }
    }
}

/// What a run is told.
#[derive(Debug)]
#[allow(inconsistent_fields)]
pub enum SyncInput {
    /// The content of a skill's file, where there is one, and whether its directory
    /// exists; `at` is the time.
    Inspected { disk: Option<String>, dir_exists: bool, at: String },
    /// Whether a skill was written; `at` is the time.
    Written { result: Result<(), String>, at: String },
    /// What went wrong with the links of a skill.
    Linked { errors: Vec<String> },
    /// Whether a skill was removed.
    Removed { result: Result<(), String> },
    /// Whether the manifest was saved.
    Saved { result: Result<(), String> },
}

/// The content of a result.
pub open spec fn outcome(r: Result<(), String>) -> Option<Seq<char>> {
    match r {
        Ok(_) => None,
        Err(e) => Some(e@),
    }
}

/// The content of a `SyncInput`: for results, what went wrong.
#[allow(inconsistent_fields)]
#[verifier::ext_equal]
pub enum SyncInputView {
    Inspected { disk: Option<Seq<char>>, dir_exists: bool, at: Seq<char> },
    Written { failure: Option<Seq<char>>, at: Seq<char> },
    Linked { errors: Seq<Seq<char>> },
    Removed { failure: Option<Seq<char>> },
    Saved { failure: Option<Seq<char>> },
}

impl View for SyncInput {
    type V = SyncInputView;

    open spec fn view(&self) -> SyncInputView {
        match *self {
            SyncInput::Inspected { disk, dir_exists, at } => SyncInputView::Inspected {
                disk: disk.deep_view(),
                dir_exists,
                at: at@,
            },
            SyncInput::Written { result, at } => SyncInputView::Written {
                failure: outcome(result),
                at: at@,
            },
            SyncInput::Linked { errors } => SyncInputView::Linked { errors: errors.deep_view() },
            SyncInput::Removed { result } => SyncInputView::Removed { failure: outcome(result) },
            SyncInput::Saved { result } => SyncInputView::Saved { failure: outcome(result) },
        }
    }
}

/// A run.
#[derive(Debug)]
pub struct SkillSync {
    remote: Vec<RemoteSkill>,
    next: usize,
    manifest: Vec<(String, ManifestEntry)>,
    report: SyncReport,
    stale: Vec<String>,
    stage: Stage,
}

/// The content of a `SkillSync`.
#[verifier::ext_equal]
pub struct SyncView {
    /// The skills that the platform lists.
    pub remote: Seq<SkillView>,
    /// The one that is next.
    pub next: nat,
    pub manifest: ManifestView,
    pub report: SyncReportView,
    /// The skills that are still to be removed.
    pub stale: Seq<Seq<char>>,
    pub stage: Stage,
}

impl View for SkillSync {
    type V = SyncView;

    closed spec fn view(&self) -> SyncView {
        SyncView {
            remote: self.remote.deep_view(),
            next: self.next as nat,
            manifest: self.manifest.deep_view(),
            report: self.report@,
            stale: self.stale.deep_view(),
            stage: self.stage,
        }
    }
}

/// A run before it begins.
pub open spec fn fresh(remote: Seq<SkillView>, manifest: ManifestView) -> SyncView {
    SyncView {
        remote,
        next: 0,
        manifest,
        report: quiet(),
        stale: Seq::empty(),
        stage: Stage::Over,
    }
}

/// One more, up to the largest number.
pub open spec fn one_more(n: nat) -> nat {
    if n < usize::MAX {
        n + 1
    } else {
        n
    }
}

/// A report with one more error.
pub open spec fn with_error(r: SyncReportView, e: Seq<char>) -> SyncReportView {
    SyncReportView { errors: r.errors.push(e), ..r }
}

/// A run that removes what the platform no longer lists, then saves the manifest.
pub open spec fn removing(v: SyncView) -> (SyncView, SyncActionView) {
    if v.stale.len() == 0 {
        (SyncView { stage: Stage::Saving, ..v }, SyncActionView::Save)
    } else {
        (
            SyncView { stage: Stage::Removing, ..v },
            SyncActionView::Remove { slug: v.stale[0] },
        )
    }
}

/// A run that looks for the next skill that is in order. One that is not is reported,
/// and neither written nor removed.
pub open spec fn seeking(v: SyncView) -> (SyncView, SyncActionView)
    decreases v.remote.len() - v.next,
{
    if v.next >= v.remote.len() {
        removing(SyncView { stale: unlisted(v.manifest, v.remote), ..v })
    } else {
        let s = v.remote[v.next as int];
        match skill_fault(s) {
            Some(e) => seeking(SyncView { next: v.next + 1, report: with_error(v.report, e), ..v }),
            None => (
                SyncView { stage: Stage::Inspecting, ..v },
                SyncActionView::Inspect { slug: s.slug },
            ),
        }
    }
}

/// A run that knows what is on disk of the skill that is next.
pub open spec fn on_inspected(
    v: SyncView,
    disk: Option<Seq<char>>,
    dir_exists: bool,
    at: Seq<char>,
) -> (SyncView, SyncActionView) {
    let s = v.remote[v.next as int];
    let entry = entry_of(v.manifest, s.slug);
    if disk is Some && text_digest(disk->0) == s.hash {
        let manifest = if entry matches Some(e) && e.hash == s.hash {
            v.manifest
        } else {
            recorded(
                v.manifest,
                s.slug,
                EntryView { hash: s.hash, installed_at: at, pending_user_review: false },
            )
        };
        (
            SyncView { manifest, stage: Stage::Linking, ..v },
            SyncActionView::Link { slug: s.slug },
        )
    } else {
        let backup = backup_needed(entry, disk, dir_exists);
        (
            SyncView { stage: Stage::Writing { existed: disk is Some, backup }, ..v },
            SyncActionView::Write { slug: s.slug, content: s.content, backup },
        )
    }
}

/// A run whose skill was written, or could not be.
pub open spec fn on_put(
    v: SyncView,
    existed: bool,
    backup: bool,
    failure: Option<Seq<char>>,
    at: Seq<char>,
) -> (SyncView, SyncActionView) {
    let s = v.remote[v.next as int];
    match failure {
        Some(e) => seeking(
            SyncView {
                next: v.next + 1,
                report: with_error(v.report, s.slug + ": write failed: "@ + e),
                ..v
            },
        ),
        None => (
            SyncView {
                report: SyncReportView {
                    installed: if existed {
                        v.report.installed
                    } else {
                        one_more(v.report.installed)
                    },
                    updated: if existed {
                        one_more(v.report.updated)
                    } else {
                        v.report.updated
                    },
                    backed_up: if backup {
                        v.report.backed_up.push(s.slug)
                    } else {
                        v.report.backed_up
                    },
                    ..v.report
                },
                manifest: recorded(
                    v.manifest,
                    s.slug,
                    EntryView { hash: s.hash, installed_at: at, pending_user_review: backup },
                ),
                stage: Stage::Linking,
                ..v
            },
            SyncActionView::Link { slug: s.slug },
        ),
    }
}

/// A run whose skill was linked.
pub open spec fn on_linked(v: SyncView, errors: Seq<Seq<char>>) -> (SyncView, SyncActionView) {
    seeking(
        SyncView {
            next: v.next + 1,
            report: SyncReportView { errors: v.report.errors + errors, ..v.report },
            ..v
        },
    )
}

/// A run whose skill was removed, or could not be.
pub open spec fn on_removed(v: SyncView, failure: Option<Seq<char>>) -> (SyncView, SyncActionView) {
    let slug = v.stale[0];
    let v = match failure {
        Some(e) => SyncView {
            report: with_error(v.report, slug + ": remove failed: "@ + e),
            ..v
        },
        None => SyncView {
            manifest: without(v.manifest, slug),
            report: SyncReportView { removed: one_more(v.report.removed), ..v.report },
            ..v
        },
    };
    removing(SyncView { stale: v.stale.skip(1), ..v })
}

/// A run whose manifest was saved, or could not be.
pub open spec fn on_saved(v: SyncView, failure: Option<Seq<char>>) -> (SyncView, SyncActionView) {
    let v = match failure {
        Some(e) => SyncView {
            report: with_error(v.report, "manifest save failed: "@ + e),
            ..v
        },
        None => v,
    };
    (SyncView { stage: Stage::Over, ..v }, SyncActionView::Done)
}

/// A run that is told something.
pub open spec fn step(v: SyncView, input: SyncInputView) -> (SyncView, SyncActionView) {
    match (v.stage, input) {
        (Stage::Inspecting, SyncInputView::Inspected { disk, dir_exists, at }) => on_inspected(
            v,
            disk,
            dir_exists,
            at,
        ),
        (Stage::Writing { existed, backup }, SyncInputView::Written { failure, at }) => on_put(
            v,
            existed,
            backup,
            failure,
            at,
        ),
        (Stage::Linking, SyncInputView::Linked { errors }) => on_linked(v, errors),
        (Stage::Removing, SyncInputView::Removed { failure }) => on_removed(v, failure),
        (Stage::Saving, SyncInputView::Saved { failure }) => on_saved(v, failure),
        _ => (v, SyncActionView::Nothing),
    }
}

/// Whether a run is in a state that it can come into: the skill it is busy with is in
/// order, and what it removes is not listed.
pub open spec fn sound(v: SyncView) -> bool {
    match v.stage {
        Stage::Inspecting | Stage::Writing { .. } | Stage::Linking => {
            &&& v.next < v.remote.len()
            &&& skill_fault(v.remote[v.next as int]) is None
            &&& v.stale.len() == 0
        },
        Stage::Removing => {
            &&& v.stale.len() > 0
            &&& forall|i: int|
                0 <= i < v.stale.len() ==> !is_listed(v.remote, #[trigger] v.stale[i])
        },
        _ => true,
    }
}

/// What is not listed is known and not listed.
pub(crate) proof fn unlisted_is_known(m: ManifestView, remote: Seq<SkillView>, i: int)
    requires
        0 <= i < unlisted(m, remote).len(),
    ensures
        !is_listed(remote, unlisted(m, remote)[i]),
        entry_of(m, unlisted(m, remote)[i]) is Some,
    decreases m.len(),
{
    if m.len() > 0 {
        let rest = unlisted(m.drop_last(), remote);
        if i < rest.len() {
            unlisted_is_known(m.drop_last(), remote, i);
        }
    }
}

/// Looking for the next skill leads to a sound state.
pub(crate) proof fn seeking_is_sound(v: SyncView)
    requires
        v.stale.len() == 0,
    ensures
        sound(seeking(v).0),
    decreases v.remote.len() - v.next,
{
    if v.next >= v.remote.len() {
        let stale = unlisted(v.manifest, v.remote);
        assert forall|i: int| 0 <= i < stale.len() implies !is_listed(
            v.remote,
            #[trigger] stale[i],
        ) by {
            unlisted_is_known(v.manifest, v.remote, i);
        }
    } else if let Some(e) = skill_fault(v.remote[v.next as int]) {
        seeking_is_sound(SyncView { next: v.next + 1, report: with_error(v.report, e), ..v });
    }
}

/// Every step keeps a run sound.
pub(crate) proof fn step_is_sound(v: SyncView, input: SyncInputView)
    requires
        sound(v),
    ensures
        sound(step(v, input).0),
{
    match (v.stage, input) {
        (Stage::Writing { .. }, SyncInputView::Written { failure: Some(e), .. }) => {
            let s = v.remote[v.next as int];
            seeking_is_sound(
                SyncView {
                    next: v.next + 1,
                    report: with_error(v.report, s.slug + ": write failed: "@ + e),
                    ..v
                },
            );
        },
        (Stage::Linking, SyncInputView::Linked { errors }) => {
            seeking_is_sound(
                SyncView {
                    next: v.next + 1,
                    report: SyncReportView { errors: v.report.errors + errors, ..v.report },
                    ..v
                },
            );
        },
        (Stage::Removing, SyncInputView::Removed { .. }) => {
            let rest = v.stale.skip(1);
            assert forall|i: int| 0 <= i < rest.len() implies !is_listed(
                v.remote,
                #[trigger] rest[i],
            ) by {
                assert(rest[i] == v.stale[i + 1]);
            }
        },
        _ => {},
    }
}

/// What is known of a skill.
fn find_entry<'a>(m: &'a Vec<(String, ManifestEntry)>, slug: &str) -> (r: Option<&'a ManifestEntry>)
    ensures
        r.deep_view() == entry_of(m.deep_view(), slug@),
{
    let ghost all = m.deep_view();
    let mut i: usize = m.len();
    assert(all.take(i as int) =~= all);
    while i > 0
        invariant
            all == m.deep_view(),
            i <= m@.len(),
            entry_of(all, slug@) == entry_of(all.take(i as int), slug@),
        decreases i,
    {
        assert(all.take(i as int).last() == (m@[i - 1].0@, m@[i - 1].1@));
        assert(all.take(i as int).drop_last() =~= all.take(i - 1));
        if text::same(m[i - 1].0.as_str(), slug) {
            return Some(&m[i - 1].1);
        }
        i = i - 1;
    }
    None
}

/// Takes a skill out of a manifest.
fn drop_entry(m: Vec<(String, ManifestEntry)>, slug: &str) -> (r: Vec<(String, ManifestEntry)>)
    ensures
        r.deep_view() == without(m.deep_view(), slug@),
{
    let ghost all = m.deep_view();
    let mut rest = m;
    let mut out: Vec<(String, ManifestEntry)> = Vec::new();
    let ghost mut done: int = 0;
    assert(out.deep_view() =~= without(all.take(0), slug@));
    assert(all.skip(0) =~= all);
    while rest.len() > 0
        invariant
            0 <= done <= all.len(),
            rest.deep_view() == all.skip(done),
            out.deep_view() == without(all.take(done), slug@),
        decreases rest@.len(),
    {
        let ghost before = rest.deep_view();
        let ghost kept = out.deep_view();
        let e = rest.remove(0);
        assert(before[0] == (e.0@, e.1@));
        assert(rest.deep_view() =~= before.skip(1));
        assert(before.skip(1) =~= all.skip(done + 1));
        assert(all.take(done + 1).drop_last() =~= all.take(done));
        assert(all.take(done + 1).last() == all[done]);
        assert(all[done] == before[0]);
        if !text::same(e.0.as_str(), slug) {
            out.push(e);
            assert(out.deep_view() =~= kept.push(all[done]));
        }
        proof {
            done = done + 1;
        }
    }
    assert(rest.deep_view().len() == 0);
    assert(all.take(done) =~= all);
    out
}

/// Puts an entry for a skill into a manifest.
fn put_entry(m: Vec<(String, ManifestEntry)>, slug: &str, e: ManifestEntry) -> (r: Vec<
    (String, ManifestEntry),
>)
    ensures
        r.deep_view() == recorded(m.deep_view(), slug@, e@),
{
    let mut out = drop_entry(m, slug);
    let ghost before = out.deep_view();
    out.push((slug.to_owned(), e));
    assert(out.deep_view() =~= before.push((slug@, e@)));
    out
}

/// Whether the platform lists a skill under this name.
fn lists(remote: &Vec<RemoteSkill>, slug: &str) -> (r: bool)
    ensures
        r == is_listed(remote.deep_view(), slug@),
{
    let ghost all = remote.deep_view();
    for i in 0..remote.len()
        invariant
            all == remote.deep_view(),
            forall|j: int| 0 <= j < i ==> (#[trigger] all[j]).slug != slug@,
    {
        assert(all[i as int] == remote@[i as int]@);
        if text::same(remote[i].slug.as_str(), slug) {
            assert(remote.deep_view()[i as int].slug == slug@);
            return true;
        }
    }
    assert(all.len() == remote@.len());
    false
}

/// The skills of a manifest that the platform does not list.
fn find_unlisted(m: &Vec<(String, ManifestEntry)>, remote: &Vec<RemoteSkill>) -> (r: Vec<String>)
    ensures
        r.deep_view() == unlisted(m.deep_view(), remote.deep_view()),
{
    let ghost all = m.deep_view();
    let mut out: Vec<String> = Vec::new();
    assert(out.deep_view() =~= unlisted(all.take(0), remote.deep_view()));
    for i in 0..m.len()
        invariant
            all == m.deep_view(),
            out.deep_view() == unlisted(all.take(i as int), remote.deep_view()),
    {
        assert(all.take(i + 1).drop_last() =~= all.take(i as int));
        assert(all.take(i + 1).last() == (m@[i as int].0@, m@[i as int].1@));
        if !lists(remote, m[i].0.as_str()) {
            text::push(&mut out, m[i].0.clone());
        }
    }
    assert(all.take(all.len() as int) =~= all);
    out
}

/// One more, up to the largest number.
fn add_one(n: usize) -> (r: usize)
    ensures
        r as nat == one_more(n as nat),
{
    if n < usize::MAX {
        n + 1
    } else {
        n
    }
}

impl SkillSync {
    /// A run over the skills that the platform lists, with the manifest as it is.
    pub fn new(remote: Vec<RemoteSkill>, manifest: Vec<(String, ManifestEntry)>) -> (r: SkillSync)
        ensures
            r@ == fresh(remote.deep_view(), manifest.deep_view()),
    {
        let stale: Vec<String> = Vec::new();
        assert(stale.deep_view() =~= Seq::empty());
        SkillSync {
            remote,
            next: 0,
            manifest,
            report: SyncReport::new(),
            stale,
            stage: Stage::Over,
        }
    }

    /// The report.
    pub fn report(&self) -> (r: &SyncReport)
        ensures
            r@ == self@.report,
    {
        &self.report
    }

    /// The manifest.
    pub fn manifest(&self) -> (r: &Vec<(String, ManifestEntry)>)
        ensures
            r.deep_view() == self@.manifest,
    {
        &self.manifest
    }

    /// Removes what the platform no longer lists, then saves the manifest.
    fn go_on_removing(&mut self) -> (r: SyncAction)
        ensures
            (final(self)@, r@) == removing(old(self)@),
    {
        assert(self.stale.deep_view().len() == self.stale@.len());
        if self.stale.len() == 0 {
            self.stage = Stage::Saving;
            SyncAction::Save
        } else {
            self.stage = Stage::Removing;
            assert(self.stale.deep_view()[0] == self.stale@[0]@);
            SyncAction::Remove { slug: self.stale[0].clone() }
        }
    }

    /// Looks for the next skill that is in order.
    fn seek(&mut self) -> (r: SyncAction)
        ensures
            (final(self)@, r@) == seeking(old(self)@),
    {
        let ghost start = self@;
        while self.next < self.remote.len()
            invariant
                start == old(self)@,
                seeking(start) == seeking(self@),
            decreases self.remote@.len() - self.next,
        {
            assert(self.remote.deep_view()[self.next as int] == self.remote@[self.next as int]@);
            match check_skill(&self.remote[self.next]) {
                Some(e) => {
                    text::push(&mut self.report.errors, e);
                    self.next = self.next + 1;
                },
                None => {
                    let slug = self.remote[self.next].slug.clone();
                    self.stage = Stage::Inspecting;
                    return SyncAction::Inspect { slug };
                },
            }
        }
        assert(self.remote.deep_view().len() == self.remote@.len());
        self.stale = find_unlisted(&self.manifest, &self.remote);
        self.go_on_removing()
    }

    /// Begins.
    pub fn start(&mut self) -> (r: SyncAction)
        requires
            old(self)@.stale.len() == 0,
        ensures
            (final(self)@, r@) == seeking(old(self)@),
            sound(final(self)@),
    {
        proof {
            seeking_is_sound(self@);
        }
        self.seek()
    }

    /// Takes the manifest out.
    fn take_manifest(&mut self) -> (r: Vec<(String, ManifestEntry)>)
        ensures
            r.deep_view() == old(self)@.manifest,
            final(self)@ == (SyncView { manifest: Seq::empty(), ..old(self)@ }),
    {
        let mut m: Vec<(String, ManifestEntry)> = Vec::new();
        std::mem::swap(&mut m, &mut self.manifest);
        assert(self.manifest.deep_view() =~= Seq::empty());
        m
    }

    /// Goes on with what is on disk of the skill that is next.
    fn inspected(&mut self, disk: Option<String>, dir_exists: bool, at: String) -> (r: SyncAction)
        requires
            old(self)@.next < old(self)@.remote.len(),
        ensures
            (final(self)@, r@) == on_inspected(old(self)@, disk.deep_view(), dir_exists, at@),
    {
        assert(self.remote.deep_view().len() == self.remote@.len());
        assert(self.remote.deep_view()[self.next as int] == self.remote@[self.next as int]@);
        let slug = self.remote[self.next].slug.clone();
        let hash = self.remote[self.next].hash.clone();
        let on_disk: Option<String> = match &disk {
            Some(c) => Some(hash_str(c.as_str())),
            None => None,
        };
        let (known, recorded_already) = match find_entry(&self.manifest, slug.as_str()) {
            Some(e) => (e.hash.clone(), text::same(e.hash.as_str(), hash.as_str())),
            None => (String::new(), false),
        };
        if text::is_text(&on_disk, hash.as_str()) {
            if !recorded_already {
                let m = self.take_manifest();
                self.manifest = put_entry(
                    m,
                    slug.as_str(),
                    ManifestEntry { hash, installed_at: at, pending_user_review: false },
                );
            }
            self.stage = Stage::Linking;
            return SyncAction::Link { slug };
        }
        let digest_there = match on_disk {
            Some(d) => d,
            None => String::new(),
        };
        let backup = dir_exists && (known.as_str().is_empty() || !text::same(
            digest_there.as_str(),
            known.as_str(),
        ));
        self.stage = Stage::Writing { existed: disk.is_some(), backup };
        SyncAction::Write { slug, content: self.remote[self.next].content.clone(), backup }
    }

    /// Goes on after a skill was written, or could not be.
    fn written(&mut self, existed: bool, backup: bool, result: Result<(), String>, at: String) -> (r:
        SyncAction)
        requires
            old(self)@.next < old(self)@.remote.len(),
        ensures
            (final(self)@, r@) == on_put(old(self)@, existed, backup, outcome(result), at@),
    {
        assert(self.remote.deep_view().len() == self.remote@.len());
        assert(self.remote.deep_view()[self.next as int] == self.remote@[self.next as int]@);
        let slug = self.remote[self.next].slug.clone();
        match result {
            Err(e) => {
                text::push(
                    &mut self.report.errors,
                    text::cat3(slug.as_str(), ": write failed: ", e.as_str()),
                );
                assert(self.next < self.remote.len());
                self.next = self.next + 1;
                self.seek()
            },
            Ok(_) => {
                if backup {
                    text::push(&mut self.report.backed_up, slug.clone());
                }
                if existed {
                    self.report.updated = add_one(self.report.updated);
                } else {
                    self.report.installed = add_one(self.report.installed);
                }
                let hash = self.remote[self.next].hash.clone();
                let m = self.take_manifest();
                self.manifest = put_entry(
                    m,
                    slug.as_str(),
                    ManifestEntry { hash, installed_at: at, pending_user_review: backup },
                );
                self.stage = Stage::Linking;
                SyncAction::Link { slug }
            },
        }
    }

    /// Goes on after a skill was linked.
    fn linked(&mut self, errors: Vec<String>) -> (r: SyncAction)
        requires
            old(self)@.next < old(self)@.remote.len(),
        ensures
            (final(self)@, r@) == on_linked(old(self)@, errors.deep_view()),
    {
        assert(self.remote.deep_view().len() == self.remote@.len());
        let ghost before = self.report.errors.deep_view();
        let ghost more = errors.deep_view();
        let mut errors = errors;
        self.report.errors.append(&mut errors);
        assert(self.report.errors.deep_view() =~= before + more);
        assert(self.next < self.remote.len());
        self.next = self.next + 1;
        self.seek()
    }

    /// Goes on after a skill was removed, or could not be.
    fn removed(&mut self, result: Result<(), String>) -> (r: SyncAction)
        requires
            old(self)@.stale.len() > 0,
        ensures
            (final(self)@, r@) == on_removed(old(self)@, outcome(result)),
    {
        let ghost before = self.stale.deep_view();
        assert(before.len() == self.stale@.len());
        let slug = self.stale.remove(0);
        assert(before[0] == slug@);
        assert(self.stale.deep_view() =~= before.skip(1));
        match result {
            Ok(_) => {
                let m = self.take_manifest();
                self.manifest = drop_entry(m, slug.as_str());
                self.report.removed = add_one(self.report.removed);
            },
            Err(e) => {
                text::push(
                    &mut self.report.errors,
                    text::cat3(slug.as_str(), ": remove failed: ", e.as_str()),
                );
            },
        }
        self.go_on_removing()
    }

    /// Ends after the manifest was saved, or could not be.
    fn saved(&mut self, result: Result<(), String>) -> (r: SyncAction)
        ensures
            (final(self)@, r@) == on_saved(old(self)@, outcome(result)),
    {
        if let Err(e) = result {
            text::push(
                &mut self.report.errors,
                text::cat2("manifest save failed: ", e.as_str()),
            );
        }
        self.stage = Stage::Over;
        SyncAction::Done
    }

    /// Takes the next input, and says what is to be done.
    pub fn on_input(&mut self, input: SyncInput) -> (r: SyncAction)
        requires
            sound(old(self)@),
        ensures
            (final(self)@, r@) == step(old(self)@, input@),
            sound(final(self)@),
    {
        proof {
            step_is_sound(self@, input@);
        }
        match input {
            SyncInput::Inspected { disk, dir_exists, at } => match self.stage {
                Stage::Inspecting => self.inspected(disk, dir_exists, at),
                _ => SyncAction::Nothing,
            },
            SyncInput::Written { result, at } => match self.stage {
                Stage::Writing { existed, backup } => self.written(existed, backup, result, at),
                _ => SyncAction::Nothing,
            },
            SyncInput::Linked { errors } => match self.stage {
                Stage::Linking => self.linked(errors),
                _ => SyncAction::Nothing,
            },
            SyncInput::Removed { result } => match self.stage {
                Stage::Removing => self.removed(result),
                _ => SyncAction::Nothing,
            },
            SyncInput::Saved { result } => match self.stage {
                Stage::Saving => self.saved(result),
                _ => SyncAction::Nothing,
            },
        }
    }
}

/// What is done about the link of a skill for an agent.
#[derive(Debug, PartialEq, Eq)]
pub enum LinkStep {
    /// It is there.
    Keep,
    /// Something else is there, and is left as it is.
    Occupied(String),
    Create,
}

/// What is done about the link of a skill for an agent. `is_link` and `occupied` tell
/// what is at its path.
pub fn plan_link(slug: &str, link: &str, is_link: bool, occupied: bool) -> (r: LinkStep)
    ensures
        if is_link {
            r == LinkStep::Keep
        } else if occupied {
            r matches LinkStep::Occupied(e) && e@ == slug@ + ": "@ + link@
                + " is a real directory, left as-is"@
        } else {
            r == LinkStep::Create
        },
{
    if is_link {
        LinkStep::Keep
    } else if occupied {
        LinkStep::Occupied(text::cat4(slug, ": ", link, " is a real directory, left as-is"))
    } else {
        LinkStep::Create
    }
}

/// The error for a link that could not be made.
pub fn link_failed(slug: &str, link: &str, why: &str) -> (r: String)
    ensures
        r@ == slug@ + ": link "@ + link@ + " failed: "@ + why@,
{
    text::cat5(slug, ": link ", link, " failed: ", why)
}

/// The name of the directory to which a skill is backed up.
pub fn backup_name(slug: &str, time: &str) -> (r: String)
    ensures
        r@ == slug@ + ".user-backup-"@ + time@,
{
    text::cat3(slug, ".user-backup-", time)
}

/// The name of a skill names a directory within its parent: it holds no separator
/// and no dot, and is not empty.
pub proof fn slugs_stay_inside(s: Seq<char>, i: int)
    requires
        good_slug(s),
        0 <= i < s.len(),
    ensures
        s[i] != '/',
        s[i] != '\\',
        s[i] != '.',
{
    assert(slug_char(s[i]));
}

/// A fetch that brought no list changes nothing: the run stops at the one error. Only
/// an answer that is no error and holds a list, if an empty one, is acted on.
pub proof fn failed_fetches_touch_nothing(f: Fetch)
    ensures
        fetched(f) is Ok <==> (f matches Fetch::Answered(env) && env.code == 0
            && env.skills is Some),
{
}

/// What is written is what the platform lists under a name that is in order, and its
/// content is what its digest says.
pub proof fn written_skills_are_checked(v: SyncView, input: SyncInputView)
    requires
        sound(v),
    ensures
        step(v, input).1 matches SyncActionView::Write { slug, content, .. } ==> {
            &&& good_slug(slug)
            &&& v.remote[v.next as int].slug == slug
            &&& text_digest(content) == v.remote[v.next as int].hash
        },
{
    match (v.stage, input) {
        (Stage::Writing { .. }, SyncInputView::Written { failure: Some(e), .. }) => {
            let s = v.remote[v.next as int];
            seeking_writes_nothing(
                SyncView {
                    next: v.next + 1,
                    report: with_error(v.report, s.slug + ": write failed: "@ + e),
                    ..v
                },
            );
        },
        (Stage::Linking, SyncInputView::Linked { errors }) => {
            seeking_writes_nothing(
                SyncView {
                    next: v.next + 1,
                    report: SyncReportView { errors: v.report.errors + errors, ..v.report },
                    ..v
                },
            );
        },
        _ => {},
    }
}

/// Looking for the next skill writes nothing.
proof fn seeking_writes_nothing(v: SyncView)
    ensures
        !(seeking(v).1 is Write),
    decreases v.remote.len() - v.next,
{
    if v.next < v.remote.len() {
        if let Some(e) = skill_fault(v.remote[v.next as int]) {
            seeking_writes_nothing(
                SyncView { next: v.next + 1, report: with_error(v.report, e), ..v },
            );
        }
    }
}

/// A skill is replaced without a backup only where its directory does not exist, or
/// holds exactly what was installed: nothing that the user wrote is lost.
pub proof fn changes_of_the_user_are_backed_up(
    v: SyncView,
    disk: Option<Seq<char>>,
    dir_exists: bool,
    at: Seq<char>,
)
    ensures
        on_inspected(v, disk, dir_exists, at).1 matches SyncActionView::Write { slug, backup, .. }
            && !backup && dir_exists ==> {
            let entry = entry_of(v.manifest, v.remote[v.next as int].slug);
            &&& entry is Some
            &&& disk is Some
            &&& entry->0.hash == text_digest(disk->0)
        },
{
}

/// A skill that is on disk as the platform wants it is not written.
pub proof fn skills_in_step_are_left_alone(v: SyncView, disk: Seq<char>, dir_exists: bool, at: Seq<char>)
    requires
        text_digest(disk) == v.remote[v.next as int].hash,
    ensures
        on_inspected(v, Some(disk), dir_exists, at).1 == (SyncActionView::Link {
            slug: v.remote[v.next as int].slug,
        }),
        on_inspected(v, Some(disk), dir_exists, at).0.report == v.report,
{
}

/// The actions of a run that is told a row of inputs.
pub open spec fn run(v: SyncView, inputs: Seq<SyncInputView>) -> Seq<SyncActionView>
    decreases inputs.len(),
{
    if inputs.len() == 0 {
        Seq::empty()
    } else {
        let (next, action) = step(v, inputs[0]);
        seq![action] + run(next, inputs.skip(1))
    }
}

/// Whether all that a manifest knows was known at the beginning or is listed by the
/// platform, and all that is removed was known and is not listed.
pub open spec fn traced(v: SyncView, first: ManifestView) -> bool {
    &&& forall|s: Seq<char>| #[trigger]
        entry_of(v.manifest, s) is Some ==> entry_of(first, s) is Some || is_listed(v.remote, s)
    &&& forall|i: int|
        0 <= i < v.stale.len() ==> entry_of(first, #[trigger] v.stale[i]) is Some && !is_listed(
            v.remote,
            v.stale[i],
        )
}

/// What is known of a skill in a manifest without another.
pub(crate) proof fn entry_without(m: ManifestView, slug: Seq<char>, s: Seq<char>)
    ensures
        entry_of(without(m, slug), s) == if s == slug {
            None
        } else {
            entry_of(m, s)
        },
    decreases m.len(),
{
    if m.len() > 0 {
        entry_without(m.drop_last(), slug, s);
        if m.last().0 != slug {
            let rest = without(m.drop_last(), slug);
            assert(rest.push(m.last()).drop_last() =~= rest);
        }
    }
}

/// What is known of a skill in a manifest with an entry for one.
pub(crate) proof fn entry_recorded(m: ManifestView, slug: Seq<char>, e: EntryView, s: Seq<char>)
    ensures
        entry_of(recorded(m, slug, e), s) == if s == slug {
            Some(e)
        } else {
            entry_of(m, s)
        },
{
    entry_without(m, slug, s);
    let rest = without(m, slug);
    assert(rest.push((slug, e)).drop_last() =~= rest);
}

/// Looking for the next skill keeps a run traced.
proof fn seeking_is_traced(v: SyncView, first: ManifestView)
    requires
        traced(v, first),
        v.stale.len() == 0,
    ensures
        traced(seeking(v).0, first),
        seeking(v).0.remote == v.remote,
    decreases v.remote.len() - v.next,
{
    if v.next >= v.remote.len() {
        let stale = unlisted(v.manifest, v.remote);
        assert forall|i: int| 0 <= i < stale.len() implies entry_of(
            first,
            #[trigger] stale[i],
        ) is Some && !is_listed(v.remote, stale[i]) by {
            unlisted_is_known(v.manifest, v.remote, i);
        }
    } else if let Some(e) = skill_fault(v.remote[v.next as int]) {
        seeking_is_traced(
            SyncView { next: v.next + 1, report: with_error(v.report, e), ..v },
            first,
        );
    }
}

/// Every step keeps a run traced.
proof fn step_is_traced(v: SyncView, input: SyncInputView, first: ManifestView)
    requires
        sound(v),
        traced(v, first),
    ensures
        traced(step(v, input).0, first),
        step(v, input).0.remote == v.remote,
{
    match (v.stage, input) {
        (Stage::Inspecting, SyncInputView::Inspected { disk, dir_exists, at }) => {
            let s = v.remote[v.next as int];
            let e = EntryView { hash: s.hash, installed_at: at, pending_user_review: false };
            assert forall|t: Seq<char>| #[trigger]
                entry_of(recorded(v.manifest, s.slug, e), t) is Some implies entry_of(
                first,
                t,
            ) is Some || is_listed(v.remote, t) by {
                entry_recorded(v.manifest, s.slug, e, t);
                assert(entry_of(v.manifest, t) is Some || t == s.slug);
            }
        },
        (Stage::Writing { existed, backup }, SyncInputView::Written { failure, at }) => {
            let s = v.remote[v.next as int];
            match failure {
                Some(e) => seeking_is_traced(
                    SyncView {
                        next: v.next + 1,
                        report: with_error(v.report, s.slug + ": write failed: "@ + e),
                        ..v
                    },
                    first,
                ),
                None => {
                    let e = EntryView {
                        hash: s.hash,
                        installed_at: at,
                        pending_user_review: backup,
                    };
                    assert forall|t: Seq<char>| #[trigger]
                        entry_of(recorded(v.manifest, s.slug, e), t) is Some implies entry_of(
                        first,
                        t,
                    ) is Some || is_listed(v.remote, t) by {
                        entry_recorded(v.manifest, s.slug, e, t);
                        assert(entry_of(v.manifest, t) is Some || t == s.slug);
                    }
                },
            }
        },
        (Stage::Linking, SyncInputView::Linked { errors }) => {
            seeking_is_traced(
                SyncView {
                    next: v.next + 1,
                    report: SyncReportView { errors: v.report.errors + errors, ..v.report },
                    ..v
                },
                first,
            );
        },
        (Stage::Removing, SyncInputView::Removed { failure }) => {
            let slug = v.stale[0];
            let rest = v.stale.skip(1);
            assert forall|i: int| 0 <= i < rest.len() implies entry_of(
                first,
                #[trigger] rest[i],
            ) is Some && !is_listed(v.remote, rest[i]) by {
                assert(rest[i] == v.stale[i + 1]);
            }
            assert forall|t: Seq<char>| #[trigger]
                entry_of(without(v.manifest, slug), t) is Some implies entry_of(
                first,
                t,
            ) is Some || is_listed(v.remote, t) by {
                entry_without(v.manifest, slug, t);
                assert(entry_of(v.manifest, t) is Some);
            }
        },
        _ => {},
    }
}

/// A step that asks to remove a skill names the first that is to be removed.
proof fn removal_names_the_first(v: SyncView, input: SyncInputView)
    requires
        sound(v),
    ensures
        step(v, input).1 matches SyncActionView::Remove { slug } ==> {
            let next = step(v, input).0;
            next.stale.len() > 0 && next.stale[0] == slug
        },
{
    match (v.stage, input) {
        (Stage::Writing { .. }, SyncInputView::Written { failure: Some(e), .. }) => {
            let s = v.remote[v.next as int];
            seeking_names_the_first(
                SyncView {
                    next: v.next + 1,
                    report: with_error(v.report, s.slug + ": write failed: "@ + e),
                    ..v
                },
            );
        },
        (Stage::Linking, SyncInputView::Linked { errors }) => {
            seeking_names_the_first(
                SyncView {
                    next: v.next + 1,
                    report: SyncReportView { errors: v.report.errors + errors, ..v.report },
                    ..v
                },
            );
        },
        _ => {},
    }
}

/// Looking for the next skill asks to remove the first that is to be removed.
proof fn seeking_names_the_first(v: SyncView)
    ensures
        seeking(v).1 matches SyncActionView::Remove { slug } ==> seeking(v).0.stale.len() > 0
            && seeking(v).0.stale[0] == slug,
    decreases v.remote.len() - v.next,
{
    if v.next < v.remote.len() {
        if let Some(e) = skill_fault(v.remote[v.next as int]) {
            seeking_names_the_first(
                SyncView { next: v.next + 1, report: with_error(v.report, e), ..v },
            );
        }
    }
}

/// Once a run has begun, it removes only what the first manifest knew and the platform
/// does not list.
proof fn later_removals_are_in_order(
    v: SyncView,
    first: ManifestView,
    inputs: Seq<SyncInputView>,
    i: int,
)
    requires
        sound(v),
        traced(v, first),
        0 <= i < run(v, inputs).len(),
        run(v, inputs)[i] is Remove,
    ensures
        entry_of(first, run(v, inputs)[i]->Remove_slug) is Some,
        !is_listed(v.remote, run(v, inputs)[i]->Remove_slug),
    decreases inputs.len(),
{
    let (next, action) = step(v, inputs[0]);
    step_is_sound(v, inputs[0]);
    step_is_traced(v, inputs[0], first);
    if i == 0 {
        removal_names_the_first(v, inputs[0]);
        assert(entry_of(first, next.stale[0]) is Some);
    } else {
        assert(run(v, inputs)[i] == run(next, inputs.skip(1))[i - 1]);
        later_removals_are_in_order(next, first, inputs.skip(1), i - 1);
    }
}

/// All that a run asks for, from its beginning on.
pub open spec fn actions(
    remote: Seq<SkillView>,
    manifest: ManifestView,
    inputs: Seq<SyncInputView>,
) -> Seq<SyncActionView> {
    let (begun, first) = seeking(fresh(remote, manifest));
    seq![first] + run(begun, inputs)
}

/// A run removes only what was installed before it began and what the platform lists
/// no longer: whatever the run is told, a skill that it asks to remove is one that the
/// manifest knew, and the platform lists none of that name, in order or not. What the
/// user made by hand is in no manifest, and stays; so does a skill whose content
/// arrived damaged.
pub proof fn only_installed_skills_are_removed(
    remote: Seq<SkillView>,
    manifest: ManifestView,
    inputs: Seq<SyncInputView>,
    i: int,
)
    requires
        0 <= i < actions(remote, manifest, inputs).len(),
        actions(remote, manifest, inputs)[i] is Remove,
    ensures
        entry_of(manifest, actions(remote, manifest, inputs)[i]->Remove_slug) is Some,
        !is_listed(remote, actions(remote, manifest, inputs)[i]->Remove_slug),
{
    let v = fresh(remote, manifest);
    let begun = seeking(v).0;
    seeking_is_sound(v);
    seeking_is_traced(v, manifest);
    if i == 0 {
        seeking_names_the_first(v);
        assert(entry_of(manifest, begun.stale[0]) is Some);
    } else {
        assert(actions(remote, manifest, inputs)[i] == run(begun, inputs)[i - 1]);
        later_removals_are_in_order(begun, manifest, inputs, i - 1);
    }
}

} // verus!
