use wolog::meta::{ArticleMeta, PostType};
use wolog::date::Date;
use wolog::sync::{
    adjust, after_read, concerns_store, is_stale, logical, names_source, notify_targets, plan,
    plan_one, should_store, trim_path, ChangeKind, FileAction, ReadAction, RebuildTask,
    SourceFile, Stored, SyncPlan,
};

fn file(path: &str, modified: i64) -> SourceFile {
    SourceFile { path: path.to_string(), modified }
}

fn stored(path: &str, updated: i64) -> (String, Stored) {
    (path.to_string(), Stored { updated, mentions: Vec::new() })
}

fn task(source: &str, path: &str, updated: i64) -> RebuildTask {
    RebuildTask { source: source.to_string(), path: path.to_string(), updated }
}

fn meta(ready: bool, mentions: &[&str]) -> ArticleMeta {
    let d = Date::from_ymd(2024, 1, 1).unwrap();
    ArticleMeta {
        title: "T".to_string(),
        post_type: PostType::Note,
        blurb: String::new(),
        tags: Vec::new(),
        template: "note".to_string(),
        toc: Vec::new(),
        exclude_from_rss: false,
        hidden: false,
        updated: d,
        created: d,
        ready,
        always_rerender: false,
        extra: Vec::new(),
        mentioners: Vec::new(),
        mentions: mentions.iter().map(|m| m.to_string()).collect(),
    }
}

/// The index after every task of a plan succeeded.
fn carried_out(index: &[(String, Stored)], done: &SyncPlan) -> Vec<(String, Stored)> {
    let mut next: Vec<(String, Stored)> = Vec::new();
    for (path, entry) in index {
        if !done.delete.contains(path) {
            next.push(stored(path, entry.updated));
        }
    }
    for t in &done.rebuild {
        match next.iter_mut().find(|(p, _)| *p == t.path) {
            Some((_, entry)) => entry.updated = t.updated,
            None => next.push(stored(&t.path, t.updated)),
        }
    }
    next
}

#[test]
fn source_documents_end_in_md() {
    assert!(names_source("a.md"));
    assert!(names_source("./articles/notes/a.md"));
    assert!(names_source("..md"));
    assert!(!names_source(".md"));
    assert!(!names_source("articles/.md"));
    assert!(!names_source("a.txt"));
    assert!(!names_source("a.md.bak"));
    assert!(!names_source("amd"));
    assert!(!names_source(""));
}

#[test]
fn logical_path_strips_root_and_extension() {
    assert_eq!(logical("./articles", "./articles/notes/a.md"), "notes/a");
    assert_eq!(logical("./articles", "./articles/index.md"), "index");
    assert_eq!(logical("/srv/content", "/srv/content/a.md.md"), "a");
    assert_eq!(logical("", "./a.md"), "a");
    assert_eq!(logical("x", "xxa.md"), "a");
    assert_eq!(logical("./articles", "elsewhere/a.md"), "elsewhere/a");
    assert_eq!(trim_path("./notes/a.md"), "notes/a");
    assert_eq!(trim_path("/index"), "index");
    assert_eq!(trim_path("a"), "a");
}

#[test]
fn adjusted_time_is_earlier_by_the_skew() {
    assert_eq!(adjust(5_000_000, 1_000_000), 4_000_000);
    assert_eq!(adjust(0, 1), -1);
    assert_eq!(adjust(10, 0), 10);
    assert_eq!(adjust(i64::MIN, 1), i64::MIN);
    assert_eq!(adjust(i64::MIN + 5, 10), i64::MIN);
    assert_eq!(adjust(i64::MIN + 10, 10), i64::MIN);
    assert_eq!(adjust(i64::MAX, u32::MAX), i64::MAX - u32::MAX as i64);
}

#[test]
fn stale_is_unlisted_or_strictly_newer() {
    let index = vec![stored("a", 10), stored("b", 20), stored("a", 99)];
    assert!(is_stale(&index, "c", 0));
    assert!(is_stale(&index, "a", 11));
    assert!(!is_stale(&index, "a", 10));
    assert!(!is_stale(&index, "a", 9));
    assert!(!is_stale(&index, "b", 20));
}

#[test]
fn plan_rebuilds_new_and_newer_files_and_purges_missing_ones() {
    let files = vec![
        file("./articles/new.md", 100),
        file("./articles/same.md", 51),
        file("./articles/newer.md", 52),
        file("./articles/picture.png", 500),
        file("./articles/older.md", 10),
    ];
    let index = vec![stored("same", 50), stored("gone", 7), stored("newer", 50), stored("older", 50)];
    let p = plan("./articles", &files, &index, 1);
    assert_eq!(
        p.rebuild,
        vec![
            task("./articles/new.md", "new", 99),
            task("./articles/newer.md", "newer", 51),
        ]
    );
    assert_eq!(p.delete, vec!["gone"]);
}

#[test]
fn plan_of_nothing_is_nothing() {
    let p = plan("root", &Vec::new(), &Vec::new(), 1);
    assert!(p.rebuild.is_empty());
    assert!(p.delete.is_empty());
    let q = plan("root", &Vec::new(), &vec![stored("a", 1), stored("b", 2)], 1);
    assert!(q.rebuild.is_empty());
    assert_eq!(q.delete, vec!["a", "b"]);
}

#[test]
fn second_pass_without_changes_does_nothing() {
    let files = vec![
        file("./articles/a.md", 1_000),
        file("./articles/deep/b.md", 2_000),
        file("./articles/c.md", 3_000),
    ];
    let index = vec![stored("a", 999), stored("gone", 5), stored("c", 10)];
    let first = plan("./articles", &files, &index, 1);
    assert_eq!(first.rebuild.len(), 2);
    assert_eq!(first.delete, vec!["gone"]);
    let next = carried_out(&index, &first);
    let second = plan("./articles", &files, &next, 1);
    assert!(second.rebuild.is_empty());
    assert!(second.delete.is_empty());
}

#[test]
fn after_a_pass_the_store_holds_what_is_on_disk() {
    let files = vec![file("r/a.md", 10), file("r/b.md", 20), file("r/notes.txt", 30)];
    let index = vec![stored("b", 5), stored("x", 1), stored("y", 2)];
    let done = plan("r", &files, &index, 0);
    let next = carried_out(&index, &done);
    let mut paths: Vec<&str> = next.iter().map(|(p, _)| p.as_str()).collect();
    paths.sort();
    assert_eq!(paths, vec!["a", "b"]);
}

#[test]
fn a_failed_rebuild_is_planned_again() {
    let files = vec![file("r/a.md", 10), file("r/b.md", 20)];
    let index = Vec::new();
    let first = plan("r", &files, &index, 1);
    assert_eq!(first.rebuild.len(), 2);
    // only the rebuild of `a` succeeded
    let next = vec![stored("a", first.rebuild[0].updated)];
    let second = plan("r", &files, &next, 1);
    assert_eq!(second.rebuild, vec![task("r/b.md", "b", 19)]);
    assert!(second.delete.is_empty());
}

#[test]
fn one_changed_file_is_rebuilt_purged_or_left() {
    let index = vec![stored("a", 50), stored("b", 50)];
    assert_eq!(
        plan_one("r", "r/a.md", Some(100), &index, 1),
        FileAction::Rebuild(task("r/a.md", "a", 99))
    );
    assert_eq!(plan_one("r", "r/a.md", Some(51), &index, 1), FileAction::Ignore);
    assert_eq!(
        plan_one("r", "r/c.md", Some(0), &index, 1),
        FileAction::Rebuild(task("r/c.md", "c", -1))
    );
    assert_eq!(plan_one("r", "r/b.md", None, &index, 1), FileAction::Delete("b".to_string()));
    assert_eq!(plan_one("r", "r/c.md", None, &index, 1), FileAction::Ignore);
    assert_eq!(plan_one("r", "r/a.txt", Some(100), &index, 1), FileAction::Ignore);
    assert_eq!(plan_one("r", "r/a.txt", None, &index, 1), FileAction::Ignore);
}

#[test]
fn changes_that_concern_the_store() {
    assert!(concerns_store(ChangeKind::Create));
    assert!(concerns_store(ChangeKind::Modify));
    assert!(concerns_store(ChangeKind::Remove));
    assert!(!concerns_store(ChangeKind::Access));
    assert!(!concerns_store(ChangeKind::Other));
}

#[test]
fn documents_that_are_not_ready_are_stored_only_while_developing() {
    assert!(should_store(&meta(true, &[]), false));
    assert!(should_store(&meta(true, &[]), true));
    assert!(should_store(&meta(false, &[]), true));
    assert!(!should_store(&meta(false, &[]), false));
}

#[test]
fn new_and_replaced_mentions_are_told() {
    let replaced = vec!["https://old/".to_string(), "https://a/".to_string()];
    assert_eq!(
        notify_targets(&meta(true, &["https://a/", "https://b/"]), &replaced),
        vec!["https://a/", "https://b/", "https://old/", "https://a/"]
    );
    assert!(notify_targets(&meta(true, &[]), &Vec::new()).is_empty());
}

#[test]
fn reading_serves_or_purges() {
    assert_eq!(after_read(false, false, false), ReadAction::NotFound);
    assert_eq!(after_read(false, true, true), ReadAction::NotFound);
    assert_eq!(after_read(true, true, true), ReadAction::Serve);
    assert_eq!(after_read(true, false, true), ReadAction::Purge);
    assert_eq!(after_read(true, true, false), ReadAction::Purge);
}
