//! The synchronization pass: which source files are rebuilt and which stored
//! documents are purged.
//!
//! The pass is planned here from plain values: the files that a walk of the
//! content root found, with their times of modification, and the paths and
//! times that the store lists. Walking, converting and storing are done by the
//! caller, task by task.

use crate::assoc::{find_key, keys_of, position};
use crate::meta::ArticleMeta;
use crate::text::{
    chars_of, contains_string, ends_with, ends_with_text, strip_leading, strip_prefix_all,
    strip_suffix_all, trim_end_matches, trim_start_chars, trim_start_matches, views,
};
use vstd::prelude::*;
use vstd::string::*;

verus! {

/// A file that the walk of the content root found: its path as the walk gave
/// it, and when it was last modified.
#[derive(Debug, PartialEq, Eq)]
pub struct SourceFile {
    pub path: String,
    pub modified: i64,
}

/// What the store lists of a document beside its path: the time it was stored
/// with, and the mentions that its metadata held.
#[derive(Debug, PartialEq, Eq)]
pub struct Stored {
    pub updated: i64,
    pub mentions: Vec<String>,
}

/// A document to rebuild: the file to convert, the path to store it under and
/// the time to store it with.
#[derive(Debug, PartialEq, Eq)]
pub struct RebuildTask {
    pub source: String,
    pub path: String,
    pub updated: i64,
}

/// What a pass does: the documents to rebuild and the paths to purge.
#[derive(Debug, PartialEq, Eq)]
pub struct SyncPlan {
    pub rebuild: Vec<RebuildTask>,
    pub delete: Vec<String>,
}

/// The view of a [`SourceFile`].
pub struct SourceFileView {
    pub path: Seq<char>,
    pub modified: int,
}

/// The view of a [`RebuildTask`].
pub struct RebuildTaskView {
    pub source: Seq<char>,
    pub path: Seq<char>,
    pub updated: int,
}

/// The view of a [`SyncPlan`].
pub struct SyncPlanView {
    pub rebuild: Seq<RebuildTaskView>,
    pub delete: Seq<Seq<char>>,
}

impl View for SourceFile {
    type V = SourceFileView;

    open spec fn view(&self) -> SourceFileView {
        SourceFileView { path: self.path@, modified: self.modified as int }
    }
}

impl View for RebuildTask {
    type V = RebuildTaskView;

    open spec fn view(&self) -> RebuildTaskView {
        RebuildTaskView { source: self.source@, path: self.path@, updated: self.updated as int }
    }
}

/// The views of a sequence of files.
pub open spec fn files_view(s: Seq<SourceFile>) -> Seq<SourceFileView> {
    Seq::new(s.len(), |i: int| s[i]@)
}

/// The views of a sequence of tasks.
pub open spec fn tasks_view(s: Seq<RebuildTask>) -> Seq<RebuildTaskView> {
    Seq::new(s.len(), |i: int| s[i]@)
}

/// The paths and times that the store lists.
pub open spec fn index_view(s: Seq<(String, Stored)>) -> Seq<(Seq<char>, int)> {
    Seq::new(s.len(), |i: int| (s[i].0@, s[i].1.updated as int))
}

impl View for SyncPlan {
    type V = SyncPlanView;

    open spec fn view(&self) -> SyncPlanView {
        SyncPlanView { rebuild: tasks_view(self.rebuild@), delete: views(self.delete@) }
    }
}

/// Whether a path names a source document: a file name that ends in `.md` and
/// has something before that.
pub open spec fn is_source(path: Seq<char>) -> bool {
    &&& ends_with(path, ".md"@)
    &&& path.len() > 3
    &&& path[path.len() - 4] != '/'
}

/// The path under which a source file is stored: the path of the file without
/// the content root in front, without the dots and slashes that then lead it,
/// and without `.md` at its end.
pub open spec fn logical_path(root: Seq<char>, path: Seq<char>) -> Seq<char> {
    strip_suffix_all(strip_leading(strip_prefix_all(path, root), "./"@), ".md"@)
}

/// The time that a file modified at `modified` is stored with: `skew` earlier,
/// and no earlier than the earliest time that can be written.
pub open spec fn adjusted(modified: int, skew: int) -> int {
    if modified - skew < i64::MIN {
        i64::MIN as int
    } else {
        modified - skew
    }
}

/// The paths that an index lists.
pub open spec fn index_paths(index: Seq<(Seq<char>, int)>) -> Seq<Seq<char>> {
    Seq::new(index.len(), |i: int| index[i].0)
}

/// The time that the index lists for `path`: that of its first entry.
pub open spec fn stored_time(index: Seq<(Seq<char>, int)>, path: Seq<char>) -> Option<int> {
    match find_key(index_paths(index), path) {
        Some(i) => Some(index[i].1),
        None => None,
    }
}

/// Whether a document is rebuilt: the store does not list it, or lists it with
/// an earlier time than `time`.
pub open spec fn stale(index: Seq<(Seq<char>, int)>, path: Seq<char>, time: int) -> bool {
    match stored_time(index, path) {
        Some(stored) => time > stored,
        None => true,
    }
}

/// The task that rebuilds the document of a file.
pub open spec fn task_for(root: Seq<char>, file: SourceFileView, skew: int) -> RebuildTaskView {
    RebuildTaskView {
        source: file.path,
        path: logical_path(root, file.path),
        updated: adjusted(file.modified, skew),
    }
}

/// Whether the file is a source document that the pass rebuilds.
pub open spec fn rebuilt(
    root: Seq<char>,
    file: SourceFileView,
    index: Seq<(Seq<char>, int)>,
    skew: int,
) -> bool {
    is_source(file.path) && stale(index, logical_path(root, file.path), adjusted(file.modified, skew))
}

/// The tasks of a pass: one for each source document that is rebuilt, in the
/// order of the files.
pub open spec fn rebuild_list(
    root: Seq<char>,
    files: Seq<SourceFileView>,
    index: Seq<(Seq<char>, int)>,
    skew: int,
) -> Seq<RebuildTaskView>
    decreases files.len(),
{
    if files.len() == 0 {
        Seq::empty()
    } else {
        let rest = rebuild_list(root, files.drop_last(), index, skew);
        if rebuilt(root, files.last(), index, skew) {
            rest.push(task_for(root, files.last(), skew))
        } else {
            rest
        }
    }
}

/// The paths of the documents that have a source file, in the order of the files.
pub open spec fn on_disk(root: Seq<char>, files: Seq<SourceFileView>) -> Seq<Seq<char>>
    decreases files.len(),
{
    if files.len() == 0 {
        Seq::empty()
    } else {
        let rest = on_disk(root, files.drop_last());
        if is_source(files.last().path) {
            rest.push(logical_path(root, files.last().path))
        } else {
            rest
        }
    }
}

/// The paths that a pass purges: those that the store lists and `present` does
/// not hold, in the order of the index.
pub open spec fn delete_list(index: Seq<(Seq<char>, int)>, present: Seq<Seq<char>>) -> Seq<
    Seq<char>,
>
    decreases index.len(),
{
    if index.len() == 0 {
        Seq::empty()
    } else {
        let rest = delete_list(index.drop_last(), present);
        if present.contains(index.last().0) {
            rest
        } else {
            rest.push(index.last().0)
        }
    }
}

/// What a pass does, given the files under the content root `root` and the
/// index of the store: it rebuilds each source document that the store does not
/// list or lists with an earlier time, and purges each listed path that has no
/// source file.
pub open spec fn plan_of(
    root: Seq<char>,
    files: Seq<SourceFileView>,
    index: Seq<(Seq<char>, int)>,
    skew: int,
) -> SyncPlanView {
    SyncPlanView {
        rebuild: rebuild_list(root, files, index, skew),
        delete: delete_list(index, on_disk(root, files)),
    }
}

/// Whether a path names a source document.
pub fn names_source(path: &str) -> (r: bool)
    ensures
        r == is_source(path@),
{
    if !ends_with_text(path, ".md") {
        return false;
    }
    let chars = chars_of(path);
    chars.len() > 3 && chars[chars.len() - 4] != '/'
}

/// The path under which the source file at `path` is stored.
pub fn logical(root: &str, path: &str) -> (r: String)
    ensures
        r@ == logical_path(root@, path@),
{
    let below = trim_start_matches(path, root);
    let relative = trim_start_chars(below.as_str(), "./");
    trim_end_matches(relative.as_str(), ".md")
}

/// The path under which a document is asked for: the path as it was given,
/// without the dots and slashes that lead it and without `.md` at its end.
pub open spec fn asked_path(path: Seq<char>) -> Seq<char> {
    strip_suffix_all(strip_leading(path, "./"@), ".md"@)
}

/// The path under which the document that was asked for as `path` is stored.
pub fn trim_path(path: &str) -> (r: String)
    ensures
        r@ == asked_path(path@),
{
    let relative = trim_start_chars(path, "./");
    trim_end_matches(relative.as_str(), ".md")
}

/// The time that a file modified at `modified` is stored with.
pub fn adjust(modified: i64, skew: u32) -> (r: i64)
    ensures
        r == adjusted(modified as int, skew as int),
{
    if modified < i64::MIN + skew as i64 {
        i64::MIN
    } else {
        modified - skew as i64
    }
}

/// Whether a document at `path` with time `time` is rebuilt.
pub fn is_stale(index: &Vec<(String, Stored)>, path: &str, time: i64) -> (r: bool)
    ensures
        r == stale(index_view(index@), path@, time as int),
{
    assert(index_paths(index_view(index@)) =~= keys_of(index@));
    match position(index, path) {
        Some(i) => time > index[i].1.updated,
        None => true,
    }
}

/// Plans a pass over the files found under `root`, against the index of the
/// store. `skew` is how much earlier than its modification a file is taken to
/// be, in the unit of the times.
pub fn plan(root: &str, files: &Vec<SourceFile>, index: &Vec<(String, Stored)>, skew: u32) -> (r:
    SyncPlan)
    ensures
        r@ == plan_of(root@, files_view(files@), index_view(index@), skew as int),
{
    let ghost all = files_view(files@);
    let ghost listed = index_view(index@);
    let mut rebuild: Vec<RebuildTask> = Vec::new();
    let mut present: Vec<String> = Vec::new();
    let mut i: usize = 0;
    assert(all.take(0) =~= Seq::empty());
    assert(tasks_view(rebuild@) =~= Seq::empty());
    assert(views(present@) =~= Seq::empty());
    while i < files.len()
        invariant
            i <= files.len(),
            all == files_view(files@),
            listed == index_view(index@),
            tasks_view(rebuild@) == rebuild_list(root@, all.take(i as int), listed, skew as int),
            views(present@) == on_disk(root@, all.take(i as int)),
        decreases files.len() - i,
    {
        proof {
            assert(all.take(i + 1).drop_last() =~= all.take(i as int));
            assert(all.take(i + 1).last() == files[i as int]@);
        }
        let file = &files[i];
        if names_source(file.path.as_str()) {
            let path = logical(root, file.path.as_str());
            let time = adjust(file.modified, skew);
            let ghost seen = views(present@);
            present.push(path.clone());
            assert(views(present@) =~= seen.push(path@));
            if is_stale(index, path.as_str(), time) {
                let ghost tasks = tasks_view(rebuild@);
                let task = RebuildTask { source: file.path.clone(), path, updated: time };
                rebuild.push(task);
                assert(tasks_view(rebuild@) =~= tasks.push(
                    task_for(root@, files[i as int]@, skew as int),
                ));
            }
        }
        i += 1;
    }
    assert(all.take(i as int) =~= all);

    let mut delete: Vec<String> = Vec::new();
    let mut k: usize = 0;
    assert(listed.take(0) =~= Seq::empty());
    assert(views(delete@) =~= Seq::empty());
    while k < index.len()
        invariant
            k <= index.len(),
            listed == index_view(index@),
            views(delete@) == delete_list(listed.take(k as int), views(present@)),
        decreases index.len() - k,
    {
        proof {
            assert(listed.take(k + 1).drop_last() =~= listed.take(k as int));
            assert(listed.take(k + 1).last() == listed[k as int]);
        }
        if !contains_string(&present, index[k].0.as_str()) {
            let ghost gone = views(delete@);
            delete.push(index[k].0.clone());
            assert(views(delete@) =~= gone.push(listed[k as int].0));
        }
        k += 1;
    }
    assert(listed.take(k as int) =~= listed);
    SyncPlan { rebuild, delete }
}

/// What is done about one file that changed.
#[derive(Debug, PartialEq, Eq)]
pub enum FileAction {
    /// Rebuild its document.
    Rebuild(RebuildTask),
    /// Purge the document stored under this path.
    Delete(String),
    /// Nothing.
    Ignore,
}

/// The view of a [`FileAction`].
pub enum FileActionView {
    Rebuild(RebuildTaskView),
    Delete(Seq<char>),
    Ignore,
}

impl View for FileAction {
    type V = FileActionView;

    open spec fn view(&self) -> FileActionView {
        match self {
            FileAction::Rebuild(task) => FileActionView::Rebuild(task@),
            FileAction::Delete(path) => FileActionView::Delete(path@),
            FileAction::Ignore => FileActionView::Ignore,
        }
    }
}

/// What is done about one changed file: as a pass decides for it. `modified`
/// is `None` where the file is no longer there.
pub open spec fn action_of(
    root: Seq<char>,
    path: Seq<char>,
    modified: Option<int>,
    index: Seq<(Seq<char>, int)>,
    skew: int,
) -> FileActionView {
    if !is_source(path) {
        FileActionView::Ignore
    } else {
        match modified {
            Some(m) => if stale(index, logical_path(root, path), adjusted(m, skew)) {
                FileActionView::Rebuild(
                    task_for(root, SourceFileView { path: path, modified: m }, skew),
                )
            } else {
                FileActionView::Ignore
            },
            None => if stored_time(index, logical_path(root, path)) is Some {
                FileActionView::Delete(logical_path(root, path))
            } else {
                FileActionView::Ignore
            },
        }
    }
}

/// Decides what is done about the file at `path`, of which a change was
/// reported. `modified` is its time of modification, or `None` where the file
/// is no longer there.
pub fn plan_one(
    root: &str,
    path: &str,
    modified: Option<i64>,
    index: &Vec<(String, Stored)>,
    skew: u32,
) -> (r: FileAction)
    ensures
        r@ == action_of(
            root@,
            path@,
            match modified {
                Some(m) => Some(m as int),
                None => None,
            },
            index_view(index@),
            skew as int,
        ),
{
    if !names_source(path) {
        return FileAction::Ignore;
    }
    let stored_under = logical(root, path);
    match modified {
        Some(m) => {
            let time = adjust(m, skew);
            if is_stale(index, stored_under.as_str(), time) {
                FileAction::Rebuild(
                    RebuildTask { source: path.to_owned(), path: stored_under, updated: time },
                )
            } else {
                FileAction::Ignore
            }
        },
        None => {
            assert(index_paths(index_view(index@)) =~= keys_of(index@));
            match position(index, stored_under.as_str()) {
                Some(_) => FileAction::Delete(stored_under),
                None => FileAction::Ignore,
            }
        },
    }
}

/// What is done when a stored document is read.
#[derive(Clone, Copy, Debug, PartialEq, Eq, Structural)]
pub enum ReadAction {
    /// The store holds no such document.
    NotFound,
    /// What is stored cannot be read as it is written now: everything stored
    /// is thrown out, and the document is not found.
    Purge,
    /// The document is served.
    Serve,
}

/// Decides what is done about a document that was asked for: `found` says
/// whether the store holds it, and the other two whether its tree and its
/// metadata could be read.
pub fn after_read(found: bool, tree_read: bool, meta_read: bool) -> (r: ReadAction)
    ensures
        r == if !found {
            ReadAction::NotFound
        } else if tree_read && meta_read {
            ReadAction::Serve
        } else {
            ReadAction::Purge
        },
{
    if !found {
        ReadAction::NotFound
    } else if tree_read && meta_read {
        ReadAction::Serve
    } else {
        ReadAction::Purge
    }
}

/// The kind of a change that a watcher reports.
#[derive(Clone, Copy, Debug, PartialEq, Eq, Structural)]
pub enum ChangeKind {
    Create,
    Modify,
    Remove,
    Access,
    Other,
}

/// Whether a change of this kind can change what is stored: files that appear,
/// change or disappear do.
pub fn concerns_store(kind: ChangeKind) -> (r: bool)
    ensures
        r == (kind == ChangeKind::Create || kind == ChangeKind::Modify || kind
            == ChangeKind::Remove),
{
    match kind {
        ChangeKind::Create => true,
        ChangeKind::Modify => true,
        ChangeKind::Remove => true,
        ChangeKind::Access => false,
        ChangeKind::Other => false,
    }
}

/// Whether a rebuilt document is stored: one that is not ready is stored only
/// while developing.
pub fn should_store(meta: &ArticleMeta, develop: bool) -> (r: bool)
    ensures
        r == (meta@.ready || develop),
{
    meta.ready || develop
}

/// Whom to tell of a document that was stored: each mention that its metadata
/// holds now, then each that the metadata it replaced held.
pub fn notify_targets(meta: &ArticleMeta, replaced: &Vec<String>) -> (r: Vec<String>)
    ensures
        views(r@) == meta@.mentions + views(replaced@),
{
    let mut out: Vec<String> = Vec::new();
    let mut i: usize = 0;
    while i < meta.mentions.len()
        invariant
            i <= meta.mentions.len(),
            views(out@) == meta@.mentions.take(i as int),
        decreases meta.mentions.len() - i,
    {
        let ghost before = views(out@);
        out.push(meta.mentions[i].clone());
        assert(views(out@) =~= before.push(meta@.mentions[i as int]));
        assert(views(out@) =~= meta@.mentions.take(i + 1));
        i += 1;
    }
    assert(meta@.mentions.take(i as int) =~= meta@.mentions);
    let mut k: usize = 0;
    while k < replaced.len()
        invariant
            k <= replaced.len(),
            views(out@) == meta@.mentions + views(replaced@).take(k as int),
        decreases replaced.len() - k,
    {
        let ghost before = views(out@);
        out.push(replaced[k].clone());
        assert(views(out@) =~= before.push(views(replaced@)[k as int]));
        assert(views(out@) =~= meta@.mentions + views(replaced@).take(k + 1));
        k += 1;
    }
    assert(views(replaced@).take(k as int) =~= views(replaced@));
    out
}

} // verus!
