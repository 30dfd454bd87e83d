//! What a run of the skills leaves on disk and in the manifest.
use vstd::prelude::*;
use crate::commands::myclaw_skills;
use crate::commands::myclaw_skills::{
    entry_of, is_listed, skill_fault, text_digest, EntryView, Fetch, ManifestView, RemoteEnvelope,
    SkillView, Stage, SyncActionView, SyncInputView, SyncReportView, SyncView,
};
use crate::digest;

verus! {

/// Whether a skill that the platform lists is in order: its name can be that of a
/// directory, and its content has the digest that is listed.
pub open spec fn in_order(s: SkillView) -> bool {
    &&& 0 < s.slug.len() <= 63
    &&& s.slug[0] != '-'
    &&& forall|i: int|
        0 <= i < s.slug.len() ==> ('a' <= #[trigger] s.slug[i] <= 'z' || '0' <= s.slug[i] <= '9'
            || s.slug[i] == '-')
    &&& text_digest(s.content) == s.hash
}

/// A skill is faulty where it is not in order, and the error names it.
pub proof fn faults_are_named(s: SkillView)
    ensures
        skill_fault(s) is None <==> in_order(s),
        skill_fault(s) matches Some(e) ==> s.slug.is_prefix_of(e),
{
    if in_order(s) {
        assert forall|i: int| 0 <= i < s.slug.len() implies myclaw_skills::slug_char(
            #[trigger] s.slug[i],
        ) by {}
    }
    if myclaw_skills::good_slug(s.slug) {
        assert forall|i: int| 0 <= i < s.slug.len() implies ('a' <= #[trigger] s.slug[i] <= 'z'
            || '0' <= s.slug[i] <= '9' || s.slug[i] == '-') by {
            assert(myclaw_skills::slug_char(s.slug[i]));
        }
    }
}

/// A skill that is next is linked only where the content on disk has the digest that the
/// platform lists. Otherwise, be it missing or changed, it is written with the listed
/// content, whatever the manifest says; with a backup where its directory exists and does
/// not hold what was installed.
pub proof fn skills_out_of_step_are_written(
    v: SyncView,
    disk: Option<Seq<char>>,
    dir_exists: bool,
    at: Seq<char>,
)
    requires
        v.stage == Stage::Inspecting,
    ensures
        ({
            let s = v.remote[v.next as int];
            let known = entry_of(v.manifest, s.slug);
            let untouched = known is Some && known->0.hash.len() > 0 && disk is Some && text_digest(
                disk->0,
            ) == known->0.hash;
            let (next, action) = myclaw_skills::step(
                v,
                SyncInputView::Inspected { disk, dir_exists, at },
            );
            if disk is Some && text_digest(disk->0) == s.hash {
                &&& action == SyncActionView::Link { slug: s.slug }
                &&& next.report == v.report
            } else {
                &&& action == SyncActionView::Write {
                    slug: s.slug,
                    content: s.content,
                    backup: dir_exists && !untouched,
                }
                &&& next.manifest == v.manifest
                &&& next.report == v.report
            }
        }),
{
}

/// A skill that was written is recorded with the digest that is listed, and counted: as
/// installed where there was none before, as updated where there was; a backup is told. A
/// write that failed is told and changes nothing else.
pub proof fn writes_are_recorded(
    v: SyncView,
    existed: bool,
    backup: bool,
    failure: Option<Seq<char>>,
    at: Seq<char>,
)
    requires
        v.stage == (Stage::Writing { existed, backup }),
        v.report.installed < usize::MAX,
        v.report.updated < usize::MAX,
    ensures
        ({
            let s = v.remote[v.next as int];
            let (next, action) = myclaw_skills::step(v, SyncInputView::Written { failure, at });
            failure is None ==> {
                &&& action == SyncActionView::Link { slug: s.slug }
                &&& entry_of(next.manifest, s.slug) == Some(
                    EntryView { hash: s.hash, installed_at: at, pending_user_review: backup },
                )
                &&& forall|t: Seq<char>|
                    t != s.slug ==> #[trigger] entry_of(next.manifest, t) == entry_of(v.manifest, t)
                &&& next.report.installed == v.report.installed + if existed {
                    0int
                } else {
                    1
                }
                &&& next.report.updated == v.report.updated + if existed {
                    1int
                } else {
                    0
                }
                &&& next.report.removed == v.report.removed
                &&& next.report.backed_up == if backup {
                    v.report.backed_up.push(s.slug)
                } else {
                    v.report.backed_up
                }
                &&& next.report.errors == v.report.errors
            }
        }),
        failure matches Some(e) ==> ({
            let s = v.remote[v.next as int];
            let next = myclaw_skills::step(v, SyncInputView::Written { failure, at }).0;
            &&& next.manifest == v.manifest
            &&& next.report.installed == v.report.installed
            &&& next.report.updated == v.report.updated
            &&& next.report.backed_up == v.report.backed_up
            &&& next.report.errors.len() > v.report.errors.len()
            &&& next.report.errors[v.report.errors.len() as int] == s.slug + ": write failed: "@ + e
        }),
{
    let s = v.remote[v.next as int];
    let e = EntryView { hash: s.hash, installed_at: at, pending_user_review: backup };
    assert forall|t: Seq<char>| #[trigger]
        entry_of(myclaw_skills::recorded(v.manifest, s.slug, e), t) == if t == s.slug {
            Some(e)
        } else {
            entry_of(v.manifest, t)
        } by {
        myclaw_skills::entry_recorded(v.manifest, s.slug, e, t);
    }
    if let Some(why) = failure {
        let told = SyncView {
            next: v.next + 1,
            report: myclaw_skills::with_error(v.report, s.slug + ": write failed: "@ + why),
            ..v
        };
        seeking_only_tells(told);
        let next = myclaw_skills::step(v, SyncInputView::Written { failure, at }).0;
        assert(next.report.errors[v.report.errors.len() as int]
            == told.report.errors[v.report.errors.len() as int]);
    }
}

/// Looking for the next skill changes the report by errors alone, and passes over skills
/// that are not in order alone.
proof fn seeking_only_tells(v: SyncView)
    ensures
        ({
            let (next, action) = myclaw_skills::seeking(v);
            &&& next.remote == v.remote
            &&& next.manifest == v.manifest
            &&& next.next >= v.next
            &&& next.next <= v.remote.len() || next.next == v.next
            &&& next.report == SyncReportView { errors: next.report.errors, ..v.report }
            &&& next.report.errors.len() >= v.report.errors.len()
            &&& next.report.errors.len() - v.report.errors.len() == next.next - v.next
            &&& forall|i: int|
                0 <= i < v.report.errors.len() ==> next.report.errors[i] == v.report.errors[i]
            &&& forall|i: int|
                v.next <= i < next.next ==> !in_order(#[trigger] v.remote[i])
            &&& forall|i: int|
                v.next <= i < next.next ==> skill_fault(#[trigger] v.remote[i]) == Some(
                    next.report.errors[v.report.errors.len() + i - v.next],
                )
            &&& match action {
                SyncActionView::Inspect { slug } => next.next < v.remote.len() && in_order(
                    v.remote[next.next as int],
                ) && slug == v.remote[next.next as int].slug && next.stage == Stage::Inspecting
                    && next.stale == v.stale,
                SyncActionView::Remove { slug } => next.next >= v.remote.len() && next.stale.len()
                    > 0 && slug == next.stale[0] && next.stage == Stage::Removing && next.stale
                    == myclaw_skills::unlisted(v.manifest, v.remote),
                SyncActionView::Save => next.next >= v.remote.len() && next.stale.len() == 0
                    && next.stage == Stage::Saving && next.stale == myclaw_skills::unlisted(
                    v.manifest,
                    v.remote,
                ),
                _ => false,
            }
        }),
    decreases v.remote.len() - v.next,
{
    if v.next < v.remote.len() {
        let s = v.remote[v.next as int];
        faults_are_named(s);
        if let Some(e) = skill_fault(s) {
            let on = SyncView {
                next: v.next + 1,
                report: myclaw_skills::with_error(v.report, e),
                ..v
            };
            seeking_only_tells(on);
            let next = myclaw_skills::seeking(v).0;
            assert forall|i: int| 0 <= i < v.report.errors.len() implies next.report.errors[i]
                == v.report.errors[i] by {
                assert(on.report.errors[i] == v.report.errors[i]);
            }
            assert(next.report.errors[v.report.errors.len() as int]
                == on.report.errors[v.report.errors.len() as int]);
        }
    }
}

/// Skills that are not in order are told in the order of the list, and none that is in
/// order is passed over: a run begins with the first that is, and inspects it.
pub proof fn faulty_skills_are_told(remote: Seq<SkillView>, manifest: ManifestView)
    ensures
        ({
            let (next, action) = myclaw_skills::seeking(myclaw_skills::fresh(remote, manifest));
            let n = next.report.errors.len() as int;
            &&& n <= remote.len()
            &&& forall|i: int|
                0 <= i < n ==> !in_order(#[trigger] remote[i]) && skill_fault(remote[i]) == Some(
                    next.report.errors[i],
                )
            &&& n < remote.len() ==> in_order(remote[n]) && action == SyncActionView::Inspect {
                slug: remote[n].slug,
            }
        }),
{
    let v = myclaw_skills::fresh(remote, manifest);
    seeking_only_tells(v);
    let (next, action) = myclaw_skills::seeking(v);
    assert(next.next == next.report.errors.len());
    assert forall|i: int| 0 <= i < next.next implies !in_order(#[trigger] remote[i]) && skill_fault(
        remote[i],
    ) == Some(next.report.errors[i]) by {
        assert(!in_order(v.remote[i]));
        assert(next.report.errors[v.report.errors.len() + i - v.next] == next.report.errors[i]);
    }
}

/// A run in the world: what it asked for last, and what the skills on disk hold.
pub struct World {
    pub run: SyncView,
    pub asked: SyncActionView,
    pub disk: Map<Seq<char>, Seq<char>>,
}

/// The world before a run, once the run has asked for something.
pub open spec fn begun(
    remote: Seq<SkillView>,
    manifest: ManifestView,
    disk: Map<Seq<char>, Seq<char>>,
) -> World {
    let (run, asked) = myclaw_skills::seeking(myclaw_skills::fresh(remote, manifest));
    World { run, asked, disk }
}

/// Whether the world did what it was asked for, without a failure, and tells what is there.
pub open spec fn obliging(w: World, input: SyncInputView) -> bool {
    match (w.asked, input) {
        (SyncActionView::Inspect { slug }, SyncInputView::Inspected { disk, .. }) => disk
            == if w.disk.contains_key(slug) {
            Some(w.disk[slug])
        } else {
            None
        },
        (SyncActionView::Write { .. }, SyncInputView::Written { failure, .. }) => failure is None,
        (SyncActionView::Link { .. }, SyncInputView::Linked { .. }) => true,
        (SyncActionView::Remove { .. }, SyncInputView::Removed { failure }) => failure is None,
        (SyncActionView::Save, SyncInputView::Saved { .. }) => true,
        _ => false,
    }
}

/// The world after it did what it was asked for and told so.
pub open spec fn turned(w: World, input: SyncInputView) -> World {
    let (run, asked) = myclaw_skills::step(w.run, input);
    World {
        run,
        asked,
        disk: match w.asked {
            SyncActionView::Write { slug, content, .. } => w.disk.insert(slug, content),
            SyncActionView::Remove { slug } => w.disk.remove(slug),
            _ => w.disk,
        },
    }
}

/// The world after a row of answers.
pub open spec fn later(w: World, inputs: Seq<SyncInputView>) -> World
    decreases inputs.len(),
{
    if inputs.len() == 0 {
        w
    } else {
        turned(later(w, inputs.drop_last()), inputs.last())
    }
}

/// Whether all answers are those of a world that did what it was asked for.
pub open spec fn all_obliging(w: World, inputs: Seq<SyncInputView>) -> bool
    decreases inputs.len(),
{
    if inputs.len() == 0 {
        true
    } else {
        all_obliging(w, inputs.drop_last()) && obliging(later(w, inputs.drop_last()), inputs.last())
    }
}

/// Whether no two skills in order bear the same name.
pub open spec fn names_differ(remote: Seq<SkillView>) -> bool {
    forall|i: int, j: int|
        0 <= i < remote.len() && 0 <= j < remote.len() && i != j && in_order(
            #[trigger] remote[i],
        ) && in_order(#[trigger] remote[j]) ==> remote[i].slug != remote[j].slug
}

/// Whether a skill is in place: its content on disk has the digest that is listed, and the
/// manifest says so.
pub open spec fn in_place(w: World, s: SkillView) -> bool {
    &&& w.disk.contains_key(s.slug)
    &&& text_digest(w.disk[s.slug]) == s.hash
    &&& entry_of(w.run.manifest, s.slug) is Some
    &&& entry_of(w.run.manifest, s.slug)->0.hash == s.hash
}

/// Whether a skill on disk is as it was.
pub open spec fn as_it_was(
    now: Map<Seq<char>, Seq<char>>,
    before: Map<Seq<char>, Seq<char>>,
    slug: Seq<char>,
) -> bool {
    &&& now.contains_key(slug) == before.contains_key(slug)
    &&& before.contains_key(slug) ==> now[slug] == before[slug]
}

/// Whether a run is busy with a skill of the list.
spec fn at_work(run: SyncView) -> bool {
    run.stage == Stage::Inspecting || run.stage is Writing || run.stage == Stage::Linking
}

/// Whether the skills that a run is through with are in place, and nothing else was
/// touched.
spec fn keeps(
    w: World,
    remote: Seq<SkillView>,
    manifest: ManifestView,
    disk: Map<Seq<char>, Seq<char>>,
) -> bool {
    let run = w.run;
    &&& run.remote == remote
    &&& myclaw_skills::sound(run)
    &&& match run.stage {
        Stage::Inspecting => w.asked == SyncActionView::Inspect {
            slug: remote[run.next as int].slug,
        },
        Stage::Writing { backup, .. } => w.asked == SyncActionView::Write {
            slug: remote[run.next as int].slug,
            content: remote[run.next as int].content,
            backup,
        },
        Stage::Linking => w.asked == SyncActionView::Link { slug: remote[run.next as int].slug },
        Stage::Removing => w.asked == SyncActionView::Remove { slug: run.stale[0] } && run.next
            >= remote.len(),
        Stage::Saving => w.asked == SyncActionView::Save && run.next >= remote.len()
            && run.stale.len() == 0,
        Stage::Over => w.asked == SyncActionView::Done && run.next >= remote.len()
            && run.stale.len() == 0,
    }
    &&& forall|i: int|
        0 <= i < remote.len() && (i < run.next || (i == run.next && run.stage == Stage::Linking))
            && in_order(#[trigger] remote[i]) ==> in_place(w, remote[i])
    &&& forall|t: Seq<char>| #[trigger]
        entry_of(run.manifest, t) is Some ==> is_listed(remote, t) || entry_of(manifest, t) is Some
    &&& forall|t: Seq<char>|
        !is_listed(remote, t) && entry_of(manifest, t) is None ==> (#[trigger] w.disk.contains_key(
            t,
        ) == disk.contains_key(t) && (disk.contains_key(t) ==> w.disk[t] == disk[t]))
    &&& at_work(run) ==> forall|t: Seq<char>|
        !is_listed(remote, t) ==> #[trigger] entry_of(run.manifest, t) == entry_of(manifest, t)
    &&& !at_work(run) ==> forall|t: Seq<char>|
        !is_listed(remote, t) && entry_of(manifest, t) is Some ==> (#[trigger] run.stale.contains(t)
            || (entry_of(run.manifest, t) is None && !w.disk.contains_key(t)))
    &&& !at_work(run) ==> forall|k: int|
        0 <= k < run.stale.len() ==> !is_listed(remote, #[trigger] run.stale[k]) && entry_of(
            manifest,
            run.stale[k],
        ) is Some
}

/// What is known and not listed is found.
proof fn unlisted_is_found(m: ManifestView, remote: Seq<SkillView>, t: Seq<char>)
    requires
        entry_of(m, t) is Some,
        !is_listed(remote, t),
    ensures
        myclaw_skills::unlisted(m, remote).contains(t),
    decreases m.len(),
{
    let front = myclaw_skills::unlisted(m.drop_last(), remote);
    let all = myclaw_skills::unlisted(m, remote);
    if m.last().0 == t {
        assert(all[all.len() - 1] == t);
    } else {
        unlisted_is_found(m.drop_last(), remote, t);
        let k = choose|k: int| 0 <= k < front.len() && front[k] == t;
        assert(all[k] == t);
    }
}

/// Looking for the next skill keeps what is in place.
proof fn seeking_keeps(
    before: World,
    v: SyncView,
    remote: Seq<SkillView>,
    manifest: ManifestView,
    disk: Map<Seq<char>, Seq<char>>,
)
    requires
        v.remote == remote,
        v.stale.len() == 0,
        v.manifest == before.run.manifest,
        forall|i: int|
            0 <= i < remote.len() && i < v.next && in_order(#[trigger] remote[i]) ==> in_place(
                before,
                remote[i],
            ),
        forall|t: Seq<char>|
            !is_listed(remote, t) ==> #[trigger] entry_of(v.manifest, t) == entry_of(manifest, t),
        forall|t: Seq<char>|
            !is_listed(remote, t) && entry_of(manifest, t) is None ==> (
            #[trigger] before.disk.contains_key(t) == disk.contains_key(t) && (disk.contains_key(t)
                ==> before.disk[t] == disk[t])),
    ensures
        ({
            let (run, asked) = myclaw_skills::seeking(v);
            keeps(World { run, asked, disk: before.disk }, remote, manifest, disk)
        }),
{
    let (run, asked) = myclaw_skills::seeking(v);
    let w = World { run, asked, disk: before.disk };
    seeking_only_tells(v);
    myclaw_skills::seeking_is_sound(v);
    assert forall|i: int|
        0 <= i < remote.len() && (i < run.next || (i == run.next && run.stage == Stage::Linking))
            && in_order(#[trigger] remote[i]) implies in_place(w, remote[i]) by {
        if i >= v.next {
            assert(!in_order(v.remote[i]));
        }
        assert(in_place(before, remote[i]));
    }
    if !at_work(run) {
        assert forall|t: Seq<char>|
            !is_listed(remote, t) && entry_of(manifest, t) is Some implies (
        #[trigger] run.stale.contains(t) || (entry_of(run.manifest, t) is None
            && !w.disk.contains_key(t))) by {
            unlisted_is_found(v.manifest, remote, t);
        }
        assert forall|k: int| 0 <= k < run.stale.len() implies !is_listed(
            remote,
            #[trigger] run.stale[k],
        ) && entry_of(manifest, run.stale[k]) is Some by {
            myclaw_skills::unlisted_is_known(v.manifest, remote, k);
        }
    }
    assert forall|t: Seq<char>| #[trigger] entry_of(run.manifest, t) is Some implies is_listed(
        remote,
        t,
    ) || entry_of(manifest, t) is Some by {}
}

/// A skill that gets into place puts no other out of place.
proof fn placing_keeps(
    w: World,
    next: World,
    remote: Seq<SkillView>,
    manifest: ManifestView,
    disk: Map<Seq<char>, Seq<char>>,
)
    requires
        names_differ(remote),
        keeps(w, remote, manifest, disk),
        w.run.stage == Stage::Inspecting || w.run.stage is Writing,
        next.run.stage == Stage::Linking,
        next.run.remote == remote,
        next.run.next == w.run.next,
        next.run.stale == w.run.stale,
        ({
            let s = remote[w.run.next as int];
            &&& next.asked == SyncActionView::Link { slug: s.slug }
            &&& in_place(next, s)
            &&& forall|t: Seq<char>|
                t != s.slug ==> #[trigger] entry_of(next.run.manifest, t) == entry_of(
                    w.run.manifest,
                    t,
                )
            &&& forall|t: Seq<char>|
                t != s.slug ==> (#[trigger] next.disk.contains_key(t) == w.disk.contains_key(t)
                    && (w.disk.contains_key(t) ==> next.disk[t] == w.disk[t]))
        }),
    ensures
        keeps(next, remote, manifest, disk),
{
    let n = w.run.next as int;
    let s = remote[n];
    faults_are_named(s);
    assert(is_listed(remote, s.slug)) by {
        assert(remote[n].slug == s.slug);
    }
    assert forall|i: int|
        0 <= i < remote.len() && (i < next.run.next || (i == next.run.next && next.run.stage
            == Stage::Linking)) && in_order(#[trigger] remote[i]) implies in_place(
        next,
        remote[i],
    ) by {
        if i < n {
            assert(in_place(w, remote[i]));
            assert(in_order(remote[n]));
            assert(remote[i].slug != remote[n].slug);
            assert(next.disk.contains_key(remote[i].slug));
        }
    }
    assert forall|t: Seq<char>| #[trigger] entry_of(next.run.manifest, t) is Some implies is_listed(
        remote,
        t,
    ) || entry_of(manifest, t) is Some by {
        if t != s.slug {
            assert(entry_of(w.run.manifest, t) is Some);
        }
    }
    assert forall|t: Seq<char>|
        !is_listed(remote, t) && entry_of(manifest, t) is None implies (
    #[trigger] next.disk.contains_key(t) == disk.contains_key(t) && (disk.contains_key(t)
        ==> next.disk[t] == disk[t])) by {
        assert(w.disk.contains_key(t) == disk.contains_key(t));
    }
}

/// Every answer of an obliging world keeps what is in place.
proof fn turning_keeps(
    w: World,
    input: SyncInputView,
    remote: Seq<SkillView>,
    manifest: ManifestView,
    disk: Map<Seq<char>, Seq<char>>,
)
    requires
        names_differ(remote),
        keeps(w, remote, manifest, disk),
        obliging(w, input),
    ensures
        keeps(turned(w, input), remote, manifest, disk),
{
    let run = w.run;
    let next = turned(w, input);
    myclaw_skills::step_is_sound(run, input);
    match (run.stage, input) {
        (Stage::Inspecting, SyncInputView::Inspected { disk: found, dir_exists, at }) => {
            let s = remote[run.next as int];
            if found is Some && text_digest(found->0) == s.hash {
                let e = EntryView { hash: s.hash, installed_at: at, pending_user_review: false };
                assert forall|t: Seq<char>| #[trigger]
                    entry_of(myclaw_skills::recorded(run.manifest, s.slug, e), t) == if t
                        == s.slug {
                        Some(e)
                    } else {
                        entry_of(run.manifest, t)
                    } by {
                    myclaw_skills::entry_recorded(run.manifest, s.slug, e, t);
                }
                placing_keeps(w, next, remote, manifest, disk);
            } else {
                assert forall|i: int|
                    0 <= i < remote.len() && i < next.run.next && in_order(
                        #[trigger] remote[i],
                    ) implies in_place(next, remote[i]) by {
                    assert(in_place(w, remote[i]));
                }
            }
        },
        (Stage::Writing { existed, backup }, SyncInputView::Written { failure, at }) => {
            let s = remote[run.next as int];
            faults_are_named(s);
            let e = EntryView { hash: s.hash, installed_at: at, pending_user_review: backup };
            assert forall|t: Seq<char>| #[trigger]
                entry_of(myclaw_skills::recorded(run.manifest, s.slug, e), t) == if t == s.slug {
                    Some(e)
                } else {
                    entry_of(run.manifest, t)
                } by {
                myclaw_skills::entry_recorded(run.manifest, s.slug, e, t);
            }
            placing_keeps(w, next, remote, manifest, disk);
        },
        (Stage::Linking, SyncInputView::Linked { errors }) => {
            let on = SyncView {
                next: run.next + 1,
                report: SyncReportView { errors: run.report.errors + errors, ..run.report },
                ..run
            };
            assert forall|i: int|
                0 <= i < remote.len() && i < on.next && in_order(#[trigger] remote[i]) implies in_place(
                w,
                remote[i],
            ) by {}
            seeking_keeps(w, on, remote, manifest, disk);
        },
        (Stage::Removing, SyncInputView::Removed { .. }) => {
            removing_keeps(w, input, remote, manifest, disk);
        },
        (Stage::Saving, SyncInputView::Saved { .. }) => {
            assert forall|i: int|
                0 <= i < remote.len() && i < next.run.next && in_order(#[trigger] remote[i]) implies in_place(
                next,
                remote[i],
            ) by {
                assert(in_place(w, remote[i]));
            }
        },
        _ => {},
    }
}

/// A skill that is removed puts none out of place.
proof fn removing_keeps(
    w: World,
    input: SyncInputView,
    remote: Seq<SkillView>,
    manifest: ManifestView,
    disk: Map<Seq<char>, Seq<char>>,
)
    requires
        keeps(w, remote, manifest, disk),
        obliging(w, input),
        w.run.stage == Stage::Removing,
        input is Removed,
    ensures
        keeps(turned(w, input), remote, manifest, disk),
{
    let run = w.run;
    let next = turned(w, input);
    let slug = run.stale[0];
    let rest = run.stale.skip(1);
    myclaw_skills::step_is_sound(run, input);
    assert(next.run.stale == rest);
    assert forall|t: Seq<char>| #[trigger]
        entry_of(myclaw_skills::without(run.manifest, slug), t) == if t == slug {
            None
        } else {
            entry_of(run.manifest, t)
        } by {
        myclaw_skills::entry_without(run.manifest, slug, t);
    }
    assert forall|i: int|
        0 <= i < remote.len() && i < next.run.next && in_order(#[trigger] remote[i]) implies in_place(
        next,
        remote[i],
    ) by {
        assert(in_place(w, remote[i]));
        assert(is_listed(remote, remote[i].slug));
        assert(!is_listed(remote, run.stale[0]));
    }
    assert forall|k: int| 0 <= k < rest.len() implies !is_listed(remote, #[trigger] rest[k])
        && entry_of(manifest, rest[k]) is Some by {
        assert(rest[k] == run.stale[k + 1]);
    }
    assert forall|t: Seq<char>|
        !is_listed(remote, t) && entry_of(manifest, t) is Some implies (#[trigger] rest.contains(t)
        || (entry_of(next.run.manifest, t) is None && !next.disk.contains_key(t))) by {
        if t != slug {
            if run.stale.contains(t) {
                let k = choose|k: int| 0 <= k < run.stale.len() && run.stale[k] == t;
                assert(rest[k - 1] == t);
            }
        }
    }
    assert forall|t: Seq<char>|
        !is_listed(remote, t) && entry_of(manifest, t) is None implies (
    #[trigger] next.disk.contains_key(t) == disk.contains_key(t) && (disk.contains_key(t)
        ==> next.disk[t] == disk[t])) by {
        assert(entry_of(manifest, run.stale[0]) is Some);
        assert(w.disk.contains_key(t) == disk.contains_key(t));
    }
    assert forall|t: Seq<char>| #[trigger] entry_of(next.run.manifest, t) is Some implies is_listed(
        remote,
        t,
    ) || entry_of(manifest, t) is Some by {
        assert(entry_of(run.manifest, t) is Some);
    }
}

/// A run in an obliging world keeps what is in place.
proof fn running_keeps(
    remote: Seq<SkillView>,
    manifest: ManifestView,
    disk: Map<Seq<char>, Seq<char>>,
    inputs: Seq<SyncInputView>,
)
    requires
        names_differ(remote),
        all_obliging(begun(remote, manifest, disk), inputs),
    ensures
        keeps(later(begun(remote, manifest, disk), inputs), remote, manifest, disk),
    decreases inputs.len(),
{
    let w = begun(remote, manifest, disk);
    if inputs.len() == 0 {
        let v = myclaw_skills::fresh(remote, manifest);
        seeking_keeps(World { run: v, asked: SyncActionView::Done, disk }, v, remote, manifest, disk);
    } else {
        running_keeps(remote, manifest, disk, inputs.drop_last());
        turning_keeps(later(w, inputs.drop_last()), inputs.last(), remote, manifest, disk);
    }
}

/// A run puts the skills in place. Whatever was on disk and in the manifest, where every
/// write and removal succeeds, then by the time the run asks to save the manifest: every
/// skill in order that the platform lists is on disk with content of the digest that is
/// listed, and the manifest records that digest; no skill that was installed before and is
/// listed no longer is on disk or in the manifest; and whatever else is on disk is as it
/// was.
pub proof fn a_run_puts_the_skills_in_place(
    remote: Seq<SkillView>,
    manifest: ManifestView,
    disk: Map<Seq<char>, Seq<char>>,
    inputs: Seq<SyncInputView>,
)
    requires
        names_differ(remote),
        all_obliging(begun(remote, manifest, disk), inputs),
        later(begun(remote, manifest, disk), inputs).asked == SyncActionView::Save,
    ensures
        forall|i: int|
            0 <= i < remote.len() && in_order(#[trigger] remote[i]) ==> in_place(
                later(begun(remote, manifest, disk), inputs),
                remote[i],
            ),
        forall|t: Seq<char>|
            !is_listed(remote, t) && entry_of(manifest, t) is Some ==> !(
            #[trigger] later(begun(remote, manifest, disk), inputs).disk.contains_key(t)),
        forall|t: Seq<char>|
            !is_listed(remote, t) && entry_of(manifest, t) is Some ==> (#[trigger] entry_of(
                later(begun(remote, manifest, disk), inputs).run.manifest,
                t,
            )) is None,
        forall|t: Seq<char>|
            !is_listed(remote, t) && entry_of(manifest, t) is None ==> #[trigger] as_it_was(
                later(begun(remote, manifest, disk), inputs).disk,
                disk,
                t,
            ),
{
    running_keeps(remote, manifest, disk, inputs);
    let w = later(begun(remote, manifest, disk), inputs);
    assert(w.run.stage == Stage::Saving);
    assert forall|t: Seq<char>|
        !is_listed(remote, t) && entry_of(manifest, t) is Some implies !(
    #[trigger] w.disk.contains_key(t)) by {
        assert(!w.run.stale.contains(t));
    }
    assert forall|t: Seq<char>|
        !is_listed(remote, t) && entry_of(manifest, t) is Some implies (#[trigger] entry_of(
        w.run.manifest,
        t,
    )) is None by {
        assert(!w.run.stale.contains(t));
    }
    assert forall|t: Seq<char>|
        !is_listed(remote, t) && entry_of(manifest, t) is None implies #[trigger] as_it_was(
        w.disk,
        disk,
        t,
    ) by {
        assert(w.disk.contains_key(t) == disk.contains_key(t));
    }
    assert forall|i: int| 0 <= i < remote.len() && in_order(#[trigger] remote[i]) implies in_place(
        w,
        remote[i],
    ) by {}
}

/// A skill that was removed is counted and leaves the manifest; one that could not be is
/// told, and stays known. The next is then removed, and after the last the manifest is
/// saved.
pub proof fn removals_are_recorded(v: SyncView, failure: Option<Seq<char>>)
    requires
        v.stage == Stage::Removing,
        v.stale.len() > 0,
        v.report.removed < usize::MAX,
    ensures
        ({
            let slug = v.stale[0];
            let (next, action) = myclaw_skills::step(v, SyncInputView::Removed { failure });
            &&& action == if v.stale.len() > 1 {
                SyncActionView::Remove { slug: v.stale[1] }
            } else {
                SyncActionView::Save
            }
            &&& match failure {
                None => {
                    &&& next.report == SyncReportView {
                        removed: v.report.removed + 1,
                        ..v.report
                    }
                    &&& entry_of(next.manifest, slug) is None
                    &&& forall|t: Seq<char>|
                        t != slug ==> #[trigger] entry_of(next.manifest, t) == entry_of(
                            v.manifest,
                            t,
                        )
                },
                Some(e) => {
                    &&& next.report == SyncReportView {
                        errors: v.report.errors.push(slug + ": remove failed: "@ + e),
                        ..v.report
                    }
                    &&& next.manifest == v.manifest
                },
            }
        }),
{
    let slug = v.stale[0];
    assert forall|t: Seq<char>| #[trigger]
        entry_of(myclaw_skills::without(v.manifest, slug), t) == if t == slug {
            None
        } else {
            entry_of(v.manifest, t)
        } by {
        myclaw_skills::entry_without(v.manifest, slug, t);
    }
}

/// What went wrong with links and with the manifest is told as it is, and the run goes on.
pub proof fn troubles_are_told(v: SyncView, errors: Seq<Seq<char>>, failure: Option<Seq<char>>)
    ensures
        v.stage == Stage::Linking ==> ({
            let next = myclaw_skills::step(v, SyncInputView::Linked { errors }).0;
            &&& (v.report.errors + errors).is_prefix_of(next.report.errors)
            &&& next.manifest == v.manifest
            &&& next.next > v.next
        }),
        v.stage == Stage::Saving ==> myclaw_skills::step(v, SyncInputView::Saved { failure }) == (
            SyncView {
                stage: Stage::Over,
                report: match failure {
                    Some(e) => SyncReportView {
                        errors: v.report.errors.push("manifest save failed: "@ + e),
                        ..v.report
                    },
                    None => v.report,
                },
                ..v
            },
            SyncActionView::Done,
        ),
{
    if v.stage == Stage::Linking {
        let on = SyncView {
            next: v.next + 1,
            report: SyncReportView { errors: v.report.errors + errors, ..v.report },
            ..v
        };
        seeking_only_tells(on);
        let next = myclaw_skills::step(v, SyncInputView::Linked { errors }).0;
        assert((v.report.errors + errors) =~= next.report.errors.take(
            (v.report.errors + errors).len() as int,
        ));
    }
}

/// Only a list that the platform gave is acted on: a request that failed, an answer that is no
/// success or cannot be read or understood, and an error of the platform are told instead.
pub proof fn only_lists_are_acted_on(why: String, envelope: RemoteEnvelope)
    ensures
        myclaw_skills::fetched(Fetch::Failed(why)) == Err::<Seq<SkillView>, Seq<char>>(
            "fetch failed: "@ + why@,
        ),
        myclaw_skills::fetched(Fetch::Status(why)) == Err::<Seq<SkillView>, Seq<char>>(
            "fetch HTTP "@ + why@,
        ),
        myclaw_skills::fetched(Fetch::Unreadable(why)) == Err::<Seq<SkillView>, Seq<char>>(
            "read body failed: "@ + why@,
        ),
        myclaw_skills::fetched(Fetch::Malformed(why)) == Err::<Seq<SkillView>, Seq<char>>(
            "parse failed: "@ + why@,
        ),
        envelope.code != 0 && envelope.msg is Some ==> myclaw_skills::fetched(
            Fetch::Answered(envelope),
        ) == Err::<Seq<SkillView>, Seq<char>>("platform error: "@ + envelope.msg->0@),
        envelope.code != 0 ==> myclaw_skills::fetched(Fetch::Answered(envelope)) is Err,
        envelope.code == 0 && envelope.skills is None ==> myclaw_skills::fetched(
            Fetch::Answered(envelope),
        ) == Err::<Seq<SkillView>, Seq<char>>("platform error: no skill list"@),
        envelope.code == 0 && envelope.skills is Some ==> myclaw_skills::fetched(
            Fetch::Answered(envelope),
        ) == Ok::<Seq<SkillView>, Seq<char>>(envelope.skills->0.deep_view()),
{
}

/// A skill is known by the SHA-256 digest of its content, in hexadecimal; one that is refused
/// for its content has a good name.
pub proof fn skills_are_known_by_their_content(s: SkillView)
    ensures
        text_digest(s.content) == digest::hex(
            digest::sha256_digest(vstd::utf8::encode_utf8(s.content)),
        ),
        !myclaw_skills::good_slug(s.slug) ==> skill_fault(s) == Some(s.slug + ": rejected slug"@),
        myclaw_skills::good_slug(s.slug) && text_digest(s.content) != s.hash ==> skill_fault(s)
            == Some(s.slug + ": content/hash mismatch"@),
{
}

} // verus!
