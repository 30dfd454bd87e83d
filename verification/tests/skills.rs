use codeg::commands::myclaw_skills::{
    backup_name, check_skill, hash_str, link_failed, plan_link, read_fetch, slug_ok, sync_pause,
    Fetch, LinkStep, ManifestEntry, RemoteEnvelope, RemoteSkill, SkillSync, SyncAction,
    SyncInput,
};

fn skill(slug: &str, content: &str) -> RemoteSkill {
    RemoteSkill { slug: slug.into(), hash: hash_str(content), content: content.into() }
}

fn installed(slug: &str, content: &str) -> (String, ManifestEntry) {
    (
        slug.into(),
        ManifestEntry {
            hash: hash_str(content),
            installed_at: "then".into(),
            pending_user_review: false,
        },
    )
}

/// A disk with one file per skill.
struct Disk {
    files: Vec<(String, String)>,
    log: Vec<String>,
    refuse_writes: bool,
}

impl Disk {
    fn new(files: &[(&str, &str)]) -> Disk {
        Disk {
            files: files.iter().map(|(a, b)| (a.to_string(), b.to_string())).collect(),
            log: vec![],
            refuse_writes: false,
        }
    }

    fn of(&self, slug: &str) -> Option<String> {
        self.files.iter().find(|(s, _)| s == slug).map(|(_, c)| c.clone())
    }

    fn run(&mut self, sync: &mut SkillSync) {
        let mut action = sync.start();
        loop {
            let input = match action {
                SyncAction::Inspect { slug } => {
                    let disk = self.of(&slug);
                    SyncInput::Inspected {
                        dir_exists: disk.is_some(),
                        disk,
                        at: "now".into(),
                    }
                }
                SyncAction::Write { slug, content, backup } => {
                    if self.refuse_writes {
                        SyncInput::Written { result: Err("disk full".into()), at: "now".into() }
                    } else {
                        if backup {
                            self.log.push(format!("backup {slug}"));
                        }
                        self.files.retain(|(s, _)| *s != slug);
                        self.files.push((slug, content));
                        SyncInput::Written { result: Ok(()), at: "now".into() }
                    }
                }
                SyncAction::Link { slug } => {
                    self.log.push(format!("link {slug}"));
                    SyncInput::Linked { errors: vec![] }
                }
                SyncAction::Remove { slug } => {
                    self.log.push(format!("remove {slug}"));
                    self.files.retain(|(s, _)| *s != slug);
                    SyncInput::Removed { result: Ok(()) }
                }
                SyncAction::Save => {
                    self.log.push("save".into());
                    SyncInput::Saved { result: Ok(()) }
                }
                SyncAction::Done => return,
                SyncAction::Nothing => panic!("nothing to do"),
            };
            action = sync.on_input(input);
        }
    }
}

#[test]
fn new_skills_are_written_and_recorded() {
    let mut disk = Disk::new(&[]);
    let mut sync = SkillSync::new(vec![skill("a", "A"), skill("b", "B")], vec![]);
    disk.run(&mut sync);
    assert_eq!(sync.report().installed, 2);
    assert_eq!(disk.of("a").as_deref(), Some("A"));
    assert_eq!(disk.of("b").as_deref(), Some("B"));
    assert_eq!(sync.manifest().len(), 2);
    assert_eq!(sync.manifest()[0].1.hash, hash_str("A"));
    assert_eq!(disk.log.last().map(String::as_str), Some("save"));
}

#[test]
fn skills_in_step_are_only_linked() {
    let mut disk = Disk::new(&[("a", "A")]);
    let mut sync = SkillSync::new(vec![skill("a", "A")], vec![installed("a", "A")]);
    disk.run(&mut sync);
    assert_eq!(disk.log, vec!["link a", "save"]);
    assert_eq!(sync.report().installed + sync.report().updated + sync.report().removed, 0);
    assert_eq!(sync.manifest()[0].1.installed_at, "then");
}

#[test]
fn an_unchanged_copy_is_updated_without_a_backup() {
    let mut disk = Disk::new(&[("a", "A")]);
    let mut sync = SkillSync::new(vec![skill("a", "A2")], vec![installed("a", "A")]);
    disk.run(&mut sync);
    assert_eq!(disk.of("a").as_deref(), Some("A2"));
    assert_eq!(sync.report().updated, 1);
    assert!(sync.report().backed_up.is_empty());
    assert!(!disk.log.contains(&"backup a".to_string()));
}

#[test]
fn changes_of_the_user_are_kept_in_a_backup() {
    let mut disk = Disk::new(&[("a", "mine")]);
    let mut sync = SkillSync::new(vec![skill("a", "A2")], vec![installed("a", "A")]);
    disk.run(&mut sync);
    assert!(disk.log.contains(&"backup a".to_string()));
    assert_eq!(sync.report().backed_up, vec!["a".to_string()]);
    assert!(sync.manifest()[0].1.pending_user_review);
}

#[test]
fn only_installed_skills_that_left_the_list_are_removed() {
    let mut disk = Disk::new(&[("a", "A"), ("b", "B"), ("own", "mine")]);
    let mut sync = SkillSync::new(
        vec![skill("a", "A")],
        vec![installed("a", "A"), installed("b", "B")],
    );
    disk.run(&mut sync);
    assert_eq!(disk.of("b"), None);
    assert_eq!(disk.of("own").as_deref(), Some("mine"));
    assert_eq!(sync.report().removed, 1);
    assert_eq!(sync.manifest().len(), 1);
}

#[test]
fn broken_skills_are_told_and_skipped() {
    let mut wrong = skill("b", "B");
    wrong.hash = hash_str("other");
    let mut disk = Disk::new(&[]);
    let mut sync = SkillSync::new(vec![skill("../x", "X"), wrong, skill("a", "A")], vec![]);
    disk.run(&mut sync);
    assert_eq!(
        sync.report().errors,
        vec!["../x: rejected slug".to_string(), "b: content/hash mismatch".to_string()]
    );
    assert_eq!(disk.files.len(), 1);
    assert_eq!(check_skill(&skill("a", "A")), None);
}

#[test]
fn a_skill_that_is_still_listed_is_not_removed() {
    let mut damaged = skill("a", "A2");
    damaged.content = "A".into();
    let mut disk = Disk::new(&[("a", "A"), ("b", "B")]);
    let mut sync =
        SkillSync::new(vec![damaged], vec![installed("a", "A"), installed("b", "B")]);
    disk.run(&mut sync);
    assert_eq!(disk.of("a").as_deref(), Some("A"));
    assert_eq!(disk.log, vec!["remove b", "save"]);
    assert_eq!(sync.report().errors, vec!["a: content/hash mismatch".to_string()]);
    assert_eq!(sync.manifest().len(), 1);
    assert_eq!(sync.manifest()[0].0, "a");
}

#[test]
fn a_failed_write_is_told_and_not_recorded() {
    let mut disk = Disk::new(&[]);
    disk.refuse_writes = true;
    let mut sync = SkillSync::new(vec![skill("a", "A")], vec![]);
    disk.run(&mut sync);
    assert_eq!(sync.report().errors.len(), 1);
    assert!(sync.report().errors[0].contains("disk full"));
    assert!(sync.manifest().is_empty());
}

#[test]
fn a_failed_fetch_ends_the_round() {
    let failed = |f: Fetch| read_fetch(f).err().unwrap().errors;
    assert_eq!(failed(Fetch::Failed("no route".into())).len(), 1);
    assert_eq!(failed(Fetch::Status("500".into())).len(), 1);
    assert_eq!(failed(Fetch::Unreadable("cut".into())).len(), 1);
    assert_eq!(failed(Fetch::Malformed("x".into())).len(), 1);
    let refused = RemoteEnvelope { code: 5, skills: None, msg: Some("denied".into()) };
    assert!(failed(Fetch::Answered(refused))[0].contains("denied"));
    let unlisted = RemoteEnvelope { code: 0, skills: None, msg: None };
    assert_eq!(failed(Fetch::Answered(unlisted)), vec!["platform error: no skill list"]);
    let none = RemoteEnvelope { code: 0, skills: Some(vec![]), msg: None };
    assert!(read_fetch(Fetch::Answered(none)).ok().unwrap().is_empty());
    let listed = RemoteEnvelope { code: 0, skills: Some(vec![skill("a", "A")]), msg: None };
    assert_eq!(read_fetch(Fetch::Answered(listed)).ok().unwrap().len(), 1);
}

#[test]
fn digests_are_those_of_sha256() {
    assert_eq!(
        hash_str("abc"),
        "ba7816bf8f01cfea414140de5dae2223b00361a396177a9cb410ff61f20015ad"
    );
}

#[test]
fn slugs_are_plain_names() {
    assert!(slug_ok("pdf-tools2"));
    assert!(!slug_ok(""));
    assert!(!slug_ok("-x"));
    assert!(!slug_ok("a/b"));
    assert!(!slug_ok("a.b"));
    assert!(!slug_ok("Abc"));
    assert!(slug_ok(&"a".repeat(63)));
    assert!(!slug_ok(&"a".repeat(64)));
}

#[test]
fn rounds_are_ten_to_fifteen_minutes_apart() {
    let mut seen: Vec<u64> = Vec::new();
    for _ in 0..200 {
        let secs = sync_pause();
        assert!((600..=900).contains(&secs), "{secs}");
        seen.push(secs);
    }
    seen.sort();
    seen.dedup();
    assert!(seen.len() > 1);
}

#[test]
fn links_are_made_only_where_nothing_is() {
    assert_eq!(plan_link("a", "/l", true, true), LinkStep::Keep);
    assert_eq!(
        plan_link("a", "/l", false, true),
        LinkStep::Occupied("a: /l is a real directory, left as-is".into())
    );
    assert_eq!(plan_link("a", "/l", false, false), LinkStep::Create);
    assert_eq!(link_failed("a", "/l", "denied"), "a: link /l failed: denied");
    assert_eq!(backup_name("a", "20260101"), "a.user-backup-20260101");
}
