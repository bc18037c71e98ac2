//! What holds of every synchronization pass.
//!
//! The store is taken as a map from paths to times. A pass changes it task by
//! task; each task may fail, and a task that fails changes nothing.

use crate::assoc::lemma_find_key;
use crate::sync::{
    adjusted, delete_list, index_paths, is_source, logical_path, on_disk, plan_of, rebuild_list,
    rebuilt, stored_time, task_for, RebuildTaskView, SourceFileView, SyncPlanView,
};
use vstd::prelude::*;

verus! {

/// The store: the time that is stored with each path.
pub type Store = Map<Seq<char>, int>;

/// The store that an index lists.
pub open spec fn store_of(index: Seq<(Seq<char>, int)>) -> Store {
    Map::new(
        |p: Seq<char>| stored_time(index, p) is Some,
        |p: Seq<char>| stored_time(index, p)->0,
    )
}

/// The index lists the store: each path of the store with its time, and no other.
pub open spec fn lists(index: Seq<(Seq<char>, int)>, store: Store) -> bool {
    forall|p: Seq<char>|
        #[trigger] stored_time(index, p) == if store.contains_key(p) {
            Some(store[p])
        } else {
            None
        }
}

/// The store after the rebuild tasks: each task whose place is in `built` has
/// stored its document; the others have failed and changed nothing.
pub open spec fn upserted(store: Store, tasks: Seq<RebuildTaskView>, built: Set<int>) -> Store
    decreases tasks.len(),
{
    if tasks.len() == 0 {
        store
    } else {
        let before = upserted(store, tasks.drop_last(), built);
        if built.contains(tasks.len() - 1) {
            before.insert(tasks.last().path, tasks.last().updated)
        } else {
            before
        }
    }
}

/// Whether the purge of `path` is among those that were carried out.
pub open spec fn purge_done(paths: Seq<Seq<char>>, removed: Set<int>, path: Seq<char>) -> bool {
    exists|k: int| 0 <= k < paths.len() && removed.contains(k) && paths[k] == path
}

/// The store after the purges: each purge whose place is in `removed` has
/// taken its path out; the others have failed and changed nothing.
pub open spec fn purged(store: Store, paths: Seq<Seq<char>>, removed: Set<int>) -> Store {
    Map::new(
        |p: Seq<char>| store.contains_key(p) && !purge_done(paths, removed, p),
        |p: Seq<char>| store[p],
    )
}

/// The store after a pass of which the tasks in `built` and the purges in
/// `removed` succeeded.
pub open spec fn after_pass(store: Store, plan: SyncPlanView, built: Set<int>, removed: Set<int>) -> Store {
    purged(upserted(store, plan.rebuild, built), plan.delete, removed)
}

/// Whether a task that succeeded stored a document under `path`.
pub open spec fn build_done(tasks: Seq<RebuildTaskView>, built: Set<int>, path: Seq<char>) -> bool {
    exists|i: int| 0 <= i < tasks.len() && built.contains(i) && tasks[i].path == path
}

/// Every place of a sequence of the given length.
pub open spec fn every(len: nat) -> Set<int> {
    Set::new(|i: int| 0 <= i < len)
}

/// No two source files are stored under the same path.
pub open spec fn distinct_sources(root: Seq<char>, files: Seq<SourceFileView>) -> bool {
    forall|i: int, j: int|
        0 <= i < j < files.len() && is_source(files[i].path) && is_source(files[j].path)
            ==> logical_path(root, files[i].path) != logical_path(root, files[j].path)
}

/// What the tasks that succeeded leave in the store: under the path of such a
/// task its time, the time of the last where several share the path; under any
/// other path what was there.
pub proof fn lemma_upserted(store: Store, tasks: Seq<RebuildTaskView>, built: Set<int>, path: Seq<char>)
    ensures
        upserted(store, tasks, built).contains_key(path) <==> store.contains_key(path)
            || build_done(tasks, built, path),
        !build_done(tasks, built, path) && store.contains_key(path) ==> upserted(
            store,
            tasks,
            built,
        )[path] == store[path],
        forall|i: int|
            0 <= i < tasks.len() && built.contains(i) && tasks[i].path == path && (forall|j: int|
                i < j < tasks.len() ==> tasks[j].path != path) ==> upserted(store, tasks, built)[path]
                == #[trigger] tasks[i].updated,
    decreases tasks.len(),
{
    if tasks.len() > 0 {
        let head = tasks.drop_last();
        let last = tasks.len() - 1;
        lemma_upserted(store, head, built, path);
        if build_done(head, built, path) {
            let i = choose|i: int| 0 <= i < head.len() && built.contains(i) && head[i].path == path;
            assert(tasks[i].path == path);
        }
        if build_done(tasks, built, path) {
            let i = choose|i: int|
                0 <= i < tasks.len() && built.contains(i) && tasks[i].path == path;
            if i < last {
                assert(head[i].path == path);
            }
        }
        assert forall|i: int|
            0 <= i < tasks.len() && built.contains(i) && tasks[i].path == path && (forall|j: int|
                i < j < tasks.len() ==> tasks[j].path != path) implies upserted(
            store,
            tasks,
            built,
        )[path] == #[trigger] tasks[i].updated by {
            if i < last {
                assert(head[i] == tasks[i]);
                assert forall|j: int| i < j < head.len() implies head[j].path != path by {
                    assert(head[j] == tasks[j]);
                }
                assert(tasks[last].path != path);
            }
        }
    }
}

/// A pass leaves alone what it has no successful task for: where no rebuild
/// that succeeded stored under a path and no purge that succeeded took it out,
/// the store holds under that path what it held before.
pub proof fn lemma_pass_leaves_others(
    store: Store,
    plan: SyncPlanView,
    built: Set<int>,
    removed: Set<int>,
    path: Seq<char>,
)
    requires
        !build_done(plan.rebuild, built, path),
        !purge_done(plan.delete, removed, path),
    ensures
        after_pass(store, plan, built, removed).contains_key(path) == store.contains_key(path),
        store.contains_key(path) ==> after_pass(store, plan, built, removed)[path] == store[path],
{
    lemma_upserted(store, plan.rebuild, built, path);
}

/// Whether `task` is the task of a file that the pass rebuilds.
pub open spec fn task_of_file(
    root: Seq<char>,
    files: Seq<SourceFileView>,
    index: Seq<(Seq<char>, int)>,
    skew: int,
    task: RebuildTaskView,
) -> bool {
    exists|i: int|
        0 <= i < files.len() && rebuilt(root, files[i], index, skew) && task == task_for(
            root,
            files[i],
            skew,
        )
}

/// The tasks of a pass are the tasks of the files that are rebuilt.
pub proof fn lemma_rebuild_list(
    root: Seq<char>,
    files: Seq<SourceFileView>,
    index: Seq<(Seq<char>, int)>,
    skew: int,
)
    ensures
        forall|a: int|
            0 <= a < rebuild_list(root, files, index, skew).len() ==> task_of_file(
                root,
                files,
                index,
                skew,
                #[trigger] rebuild_list(root, files, index, skew)[a],
            ),
        forall|i: int|
            0 <= i < files.len() && rebuilt(root, #[trigger] files[i], index, skew) ==> rebuild_list(
                root,
                files,
                index,
                skew,
            ).contains(task_for(root, files[i], skew)),
    decreases files.len(),
{
    let tasks = rebuild_list(root, files, index, skew);
    if files.len() > 0 {
        let head = files.drop_last();
        let rest = rebuild_list(root, head, index, skew);
        lemma_rebuild_list(root, head, index, skew);
        assert forall|a: int| 0 <= a < tasks.len() implies task_of_file(
            root,
            files,
            index,
            skew,
            #[trigger] tasks[a],
        ) by {
            if a < rest.len() {
                assert(task_of_file(root, head, index, skew, rest[a]));
                let i = choose|i: int|
                    0 <= i < head.len() && rebuilt(root, head[i], index, skew) && rest[a]
                        == task_for(root, head[i], skew);
                assert(files[i] == head[i]);
            } else {
                assert(tasks[a] == task_for(root, files[files.len() - 1], skew));
            }
        }
        assert forall|i: int|
            0 <= i < files.len() && rebuilt(root, #[trigger] files[i], index, skew) implies tasks.contains(
            task_for(root, files[i], skew),
        ) by {
            if i < head.len() {
                assert(files[i] == head[i]);
                let a = choose|a: int|
                    0 <= a < rest.len() && rest[a] == task_for(root, head[i], skew);
                assert(tasks[a] == rest[a]);
            } else {
                assert(tasks[tasks.len() - 1] == task_for(root, files[i], skew));
            }
        }
    }
}

/// The paths on disk are the paths of the source files.
pub proof fn lemma_on_disk(root: Seq<char>, files: Seq<SourceFileView>)
    ensures
        forall|p: Seq<char>|
            #[trigger] on_disk(root, files).contains(p) <==> exists|i: int|
                0 <= i < files.len() && is_source(files[i].path) && logical_path(
                    root,
                    files[i].path,
                ) == p,
    decreases files.len(),
{
    let present = on_disk(root, files);
    if files.len() > 0 {
        let head = files.drop_last();
        let rest = on_disk(root, head);
        let last = files.len() - 1;
        lemma_on_disk(root, head);
        assert forall|p: Seq<char>| #[trigger]
            present.contains(p) <==> exists|i: int|
                0 <= i < files.len() && is_source(files[i].path) && logical_path(
                    root,
                    files[i].path,
                ) == p by {
            if present.contains(p) {
                let a = choose|a: int| 0 <= a < present.len() && present[a] == p;
                if a < rest.len() {
                    assert(rest[a] == p);
                    assert(rest.contains(p));
                    let i = choose|i: int|
                        0 <= i < head.len() && is_source(head[i].path) && logical_path(
                            root,
                            head[i].path,
                        ) == p;
                    assert(files[i] == head[i]);
                } else {
                    assert(is_source(files[last].path) && logical_path(root, files[last].path) == p);
                }
            }
            if exists|i: int|
                0 <= i < files.len() && is_source(files[i].path) && logical_path(
                    root,
                    files[i].path,
                ) == p {
                let i = choose|i: int|
                    0 <= i < files.len() && is_source(files[i].path) && logical_path(
                        root,
                        files[i].path,
                    ) == p;
                if i < last {
                    assert(head[i] == files[i]);
                    assert(rest.contains(p));
                    let a = choose|a: int| 0 <= a < rest.len() && rest[a] == p;
                    assert(present[a] == p);
                } else {
                    assert(present[present.len() - 1] == p);
                }
            }
        }
    } else {
        assert(present =~= Seq::empty());
    }
}

/// The paths that a pass purges are the listed paths that are not present.
pub proof fn lemma_delete_list(index: Seq<(Seq<char>, int)>, present: Seq<Seq<char>>)
    ensures
        forall|p: Seq<char>|
            #[trigger] delete_list(index, present).contains(p) <==> index_paths(index).contains(p)
                && !present.contains(p),
    decreases index.len(),
{
    let gone = delete_list(index, present);
    if index.len() > 0 {
        let head = index.drop_last();
        let rest = delete_list(head, present);
        let last = index.len() - 1;
        lemma_delete_list(head, present);
        assert forall|p: Seq<char>| #[trigger]
            gone.contains(p) <==> index_paths(index).contains(p) && !present.contains(p) by {
            if gone.contains(p) {
                let a = choose|a: int| 0 <= a < gone.len() && gone[a] == p;
                if a < rest.len() {
                    assert(rest[a] == p);
                    assert(rest.contains(p));
                    let k = choose|k: int|
                        0 <= k < index_paths(head).len() && index_paths(head)[k] == p;
                    assert(index_paths(index)[k] == p);
                } else {
                    assert(index_paths(index)[last] == p);
                }
            }
            if index_paths(index).contains(p) && !present.contains(p) {
                let k = choose|k: int|
                    0 <= k < index_paths(index).len() && index_paths(index)[k] == p;
                if k < last {
                    assert(index_paths(head)[k] == p);
                    assert(rest.contains(p));
                    let a = choose|a: int| 0 <= a < rest.len() && rest[a] == p;
                    assert(gone[a] == p);
                } else {
                    assert(gone[gone.len() - 1] == p);
                }
            }
        }
    } else {
        assert(gone =~= Seq::empty());
        assert(index_paths(index) =~= Seq::empty());
    }
}

/// After a pass of which every task succeeded, the store holds a document
/// under a path exactly if a source file is stored under that path: what had
/// no file is gone, and each file has its document.
pub proof fn lemma_pass_completes(
    root: Seq<char>,
    files: Seq<SourceFileView>,
    index: Seq<(Seq<char>, int)>,
    skew: int,
)
    ensures
        ({
            let plan = plan_of(root, files, index, skew);
            let after = after_pass(
                store_of(index),
                plan,
                every(plan.rebuild.len()),
                every(plan.delete.len()),
            );
            &&& forall|p: Seq<char>|
                store_of(index).contains_key(p) && !on_disk(root, files).contains(p)
                    ==> !#[trigger] after.contains_key(p)
            &&& forall|i: int|
                0 <= i < files.len() && is_source(#[trigger] files[i].path) ==> after.contains_key(
                    logical_path(root, files[i].path),
                )
            &&& forall|p: Seq<char>| #[trigger] after.contains_key(p) ==> on_disk(root, files).contains(p)
        }),
{
    let plan = plan_of(root, files, index, skew);
    let store = store_of(index);
    let built = every(plan.rebuild.len());
    let removed = every(plan.delete.len());
    let after = after_pass(store, plan, built, removed);
    let present = on_disk(root, files);
    lemma_rebuild_list(root, files, index, skew);
    lemma_on_disk(root, files);
    lemma_delete_list(index, present);
    assert forall|p: Seq<char>| #[trigger] after.contains_key(p) implies present.contains(p) by {
        lemma_upserted(store, plan.rebuild, built, p);
        if build_done(plan.rebuild, built, p) {
            let a = choose|a: int|
                0 <= a < plan.rebuild.len() && built.contains(a) && plan.rebuild[a].path == p;
            assert(task_of_file(root, files, index, skew, plan.rebuild[a]));
            let i = choose|i: int|
                0 <= i < files.len() && rebuilt(root, files[i], index, skew) && plan.rebuild[a]
                    == task_for(root, files[i], skew);
            assert(is_source(files[i].path) && logical_path(root, files[i].path) == p);
        } else {
            if !present.contains(p) {
                lemma_find_key(index_paths(index), p);
                assert(plan.delete.contains(p));
                let k = choose|k: int| 0 <= k < plan.delete.len() && plan.delete[k] == p;
                assert(removed.contains(k));
                assert(purge_done(plan.delete, removed, p));
            }
        }
    }
    assert forall|i: int|
        0 <= i < files.len() && is_source(#[trigger] files[i].path) implies after.contains_key(
        logical_path(root, files[i].path),
    ) by {
        let p = logical_path(root, files[i].path);
        lemma_upserted(store, plan.rebuild, built, p);
        assert(present.contains(p));
        if purge_done(plan.delete, removed, p) {
            let k = choose|k: int|
                0 <= k < plan.delete.len() && removed.contains(k) && plan.delete[k] == p;
            assert(plan.delete.contains(p));
        }
        if rebuilt(root, files[i], index, skew) {
            let t = task_for(root, files[i], skew);
            assert(plan.rebuild.contains(t));
            let a = choose|a: int| 0 <= a < plan.rebuild.len() && plan.rebuild[a] == t;
            assert(built.contains(a));
            assert(build_done(plan.rebuild, built, p));
        }
    }
}

/// Where no two source files are stored under the same path, no two tasks of a
/// pass store under the same path.
pub proof fn lemma_tasks_distinct(
    root: Seq<char>,
    files: Seq<SourceFileView>,
    index: Seq<(Seq<char>, int)>,
    skew: int,
)
    requires
        distinct_sources(root, files),
    ensures
        forall|a: int, b: int|
            0 <= a < b < rebuild_list(root, files, index, skew).len() ==> rebuild_list(
                root,
                files,
                index,
                skew,
            )[a].path != rebuild_list(root, files, index, skew)[b].path,
    decreases files.len(),
{
    let tasks = rebuild_list(root, files, index, skew);
    if files.len() > 0 {
        let head = files.drop_last();
        let rest = rebuild_list(root, head, index, skew);
        let last = files.len() - 1;
        assert forall|i: int, j: int|
            0 <= i < j < head.len() && is_source(head[i].path) && is_source(
                head[j].path,
            ) implies logical_path(root, head[i].path) != logical_path(root, head[j].path) by {
            assert(head[i] == files[i] && head[j] == files[j]);
        }
        lemma_tasks_distinct(root, head, index, skew);
        lemma_rebuild_list(root, head, index, skew);
        assert forall|a: int, b: int| 0 <= a < b < tasks.len() implies tasks[a].path
            != tasks[b].path by {
            if b < rest.len() {
                assert(tasks[a] == rest[a] && tasks[b] == rest[b]);
            } else {
                assert(tasks[b] == task_for(root, files[last], skew));
                assert(tasks[a] == rest[a]);
                assert(task_of_file(root, head, index, skew, rest[a]));
                let i = choose|i: int|
                    0 <= i < head.len() && rebuilt(root, head[i], index, skew) && rest[a]
                        == task_for(root, head[i], skew);
                assert(head[i] == files[i]);
            }
        }
    }
}

/// A second pass has nothing to do: after a pass of which every task
/// succeeded, a pass over the same files rebuilds nothing and purges nothing,
/// provided that no two source files are stored under the same path.
pub proof fn lemma_second_pass_idle(
    root: Seq<char>,
    files: Seq<SourceFileView>,
    index: Seq<(Seq<char>, int)>,
    skew: int,
    next_index: Seq<(Seq<char>, int)>,
)
    requires
        distinct_sources(root, files),
        ({
            let plan = plan_of(root, files, index, skew);
            lists(
                next_index,
                after_pass(
                    store_of(index),
                    plan,
                    every(plan.rebuild.len()),
                    every(plan.delete.len()),
                ),
            )
        }),
    ensures
        plan_of(root, files, next_index, skew).rebuild.len() == 0,
        plan_of(root, files, next_index, skew).delete.len() == 0,
{
    let plan = plan_of(root, files, index, skew);
    let store = store_of(index);
    let built = every(plan.rebuild.len());
    let removed = every(plan.delete.len());
    let after = after_pass(store, plan, built, removed);
    let present = on_disk(root, files);
    lemma_pass_completes(root, files, index, skew);
    lemma_rebuild_list(root, files, index, skew);
    lemma_tasks_distinct(root, files, index, skew);
    lemma_on_disk(root, files);
    lemma_delete_list(index, present);

    // no file is rebuilt
    assert forall|i: int| 0 <= i < files.len() implies !rebuilt(
        root,
        #[trigger] files[i],
        next_index,
        skew,
    ) by {
        if is_source(files[i].path) {
            let p = logical_path(root, files[i].path);
            let t = adjusted(files[i].modified, skew);
            assert(after.contains_key(p));
            assert(stored_time(next_index, p) == Some(after[p]));
            lemma_upserted(store, plan.rebuild, built, p);
            if rebuilt(root, files[i], index, skew) {
                let task = task_for(root, files[i], skew);
                assert(plan.rebuild.contains(task));
                let a = choose|a: int| 0 <= a < plan.rebuild.len() && plan.rebuild[a] == task;
                assert(built.contains(a));
                assert(plan.rebuild[a].updated == t);
            } else {
                if build_done(plan.rebuild, built, p) {
                    let a = choose|a: int|
                        0 <= a < plan.rebuild.len() && built.contains(a) && plan.rebuild[a].path
                            == p;
                    assert(task_of_file(root, files, index, skew, plan.rebuild[a]));
                    let j = choose|j: int|
                        0 <= j < files.len() && rebuilt(root, files[j], index, skew)
                            && plan.rebuild[a] == task_for(root, files[j], skew);
                    assert(j == i) by {
                        if j < i {
                            assert(logical_path(root, files[j].path) != logical_path(
                                root,
                                files[i].path,
                            ));
                        } else if i < j {
                            assert(logical_path(root, files[i].path) != logical_path(
                                root,
                                files[j].path,
                            ));
                        }
                    }
                }
                assert(store.contains_key(p));
            }
        }
    }
    lemma_rebuild_list(root, files, next_index, skew);
    let tasks2 = rebuild_list(root, files, next_index, skew);
    if tasks2.len() > 0 {
        assert(task_of_file(root, files, next_index, skew, tasks2[0]));
        let i = choose|i: int|
            0 <= i < files.len() && rebuilt(root, files[i], next_index, skew) && tasks2[0]
                == task_for(root, files[i], skew);
        assert(false);
    }
    // no path is purged
    lemma_delete_list(next_index, present);
    let gone2 = delete_list(next_index, present);
    if gone2.len() > 0 {
        let p = gone2[0];
        assert(gone2.contains(p));
        lemma_find_key(index_paths(next_index), p);
        assert(stored_time(next_index, p) is Some);
        assert(after.contains_key(p));
        assert(false);
    }
}

/// Whether the task of a file is among those that succeeded.
pub open spec fn file_built(
    root: Seq<char>,
    file: SourceFileView,
    tasks: Seq<RebuildTaskView>,
    built: Set<int>,
    skew: int,
) -> bool {
    exists|a: int|
        0 <= a < tasks.len() && built.contains(a) && tasks[a] == task_for(root, file, skew)
}

/// A second pass does again what failed, and nothing else: after a pass of
/// which some tasks failed, a pass over the same files rebuilds the source
/// documents whose rebuild failed and purges the paths whose purge failed,
/// provided that no two source files are stored under the same path.
pub proof fn lemma_second_pass_retries(
    root: Seq<char>,
    files: Seq<SourceFileView>,
    index: Seq<(Seq<char>, int)>,
    skew: int,
    built: Set<int>,
    removed: Set<int>,
    next_index: Seq<(Seq<char>, int)>,
)
    requires
        distinct_sources(root, files),
        lists(next_index, after_pass(store_of(index), plan_of(root, files, index, skew), built, removed)),
    ensures
        forall|i: int|
            0 <= i < files.len() ==> (rebuilt(root, #[trigger] files[i], next_index, skew)
                <==> rebuilt(root, files[i], index, skew) && !file_built(
                root,
                files[i],
                plan_of(root, files, index, skew).rebuild,
                built,
                skew,
            )),
        forall|p: Seq<char>|
            #[trigger] plan_of(root, files, next_index, skew).delete.contains(p) <==> plan_of(
                root,
                files,
                index,
                skew,
            ).delete.contains(p) && !purge_done(plan_of(root, files, index, skew).delete, removed, p),
{
    let plan = plan_of(root, files, index, skew);
    let store = store_of(index);
    let after = after_pass(store, plan, built, removed);
    let present = on_disk(root, files);
    lemma_rebuild_list(root, files, index, skew);
    lemma_tasks_distinct(root, files, index, skew);
    lemma_on_disk(root, files);
    lemma_delete_list(index, present);
    lemma_delete_list(next_index, present);

    assert forall|i: int| 0 <= i < files.len() implies (rebuilt(
        root,
        #[trigger] files[i],
        next_index,
        skew,
    ) <==> rebuilt(root, files[i], index, skew) && !file_built(
        root,
        files[i],
        plan.rebuild,
        built,
        skew,
    )) by {
        let p = logical_path(root, files[i].path);
        let t = adjusted(files[i].modified, skew);
        let task = task_for(root, files[i], skew);
        if is_source(files[i].path) {
            lemma_upserted(store, plan.rebuild, built, p);
            assert(present.contains(p));
            // a path that is on disk is not purged
            if purge_done(plan.delete, removed, p) {
                let k = choose|k: int|
                    0 <= k < plan.delete.len() && removed.contains(k) && plan.delete[k] == p;
                assert(plan.delete.contains(p));
            }
            assert(after.contains_key(p) == upserted(store, plan.rebuild, built).contains_key(p));
            // a task that stores under this path is the task of this file
            assert forall|a: int|
                0 <= a < plan.rebuild.len() && plan.rebuild[a].path == p implies plan.rebuild[a]
                == task && rebuilt(root, files[i], index, skew) by {
                assert(task_of_file(root, files, index, skew, plan.rebuild[a]));
                let j = choose|j: int|
                    0 <= j < files.len() && rebuilt(root, files[j], index, skew) && plan.rebuild[a]
                        == task_for(root, files[j], skew);
                if j < i {
                    assert(logical_path(root, files[j].path) != logical_path(
                        root,
                        files[i].path,
                    ));
                } else if i < j {
                    assert(logical_path(root, files[i].path) != logical_path(
                        root,
                        files[j].path,
                    ));
                }
            }
            if build_done(plan.rebuild, built, p) {
                let a = choose|a: int|
                    0 <= a < plan.rebuild.len() && built.contains(a) && plan.rebuild[a].path == p;
                assert(plan.rebuild[a] == task);
                assert(file_built(root, files[i], plan.rebuild, built, skew));
                assert(plan.rebuild[a].updated == t);
                assert(after[p] == t);
                assert(stored_time(next_index, p) == Some(t));
            } else {
                if file_built(root, files[i], plan.rebuild, built, skew) {
                    let a = choose|a: int|
                        0 <= a < plan.rebuild.len() && built.contains(a) && plan.rebuild[a]
                            == task;
                    assert(plan.rebuild[a].path == p);
                }
                assert(stored_time(next_index, p) == stored_time(index, p));
            }
        }
    }
    assert forall|p: Seq<char>| #[trigger]
        plan_of(root, files, next_index, skew).delete.contains(p) <==> plan.delete.contains(p)
            && !purge_done(plan.delete, removed, p) by {
        lemma_upserted(store, plan.rebuild, built, p);
        lemma_find_key(index_paths(next_index), p);
        lemma_find_key(index_paths(index), p);
        if build_done(plan.rebuild, built, p) {
            let a = choose|a: int|
                0 <= a < plan.rebuild.len() && built.contains(a) && plan.rebuild[a].path == p;
            assert(task_of_file(root, files, index, skew, plan.rebuild[a]));
            let j = choose|j: int|
                0 <= j < files.len() && rebuilt(root, files[j], index, skew) && plan.rebuild[a]
                    == task_for(root, files[j], skew);
            assert(is_source(files[j].path) && logical_path(root, files[j].path) == p);
            assert(present.contains(p));
        }
    }
}

} // verus!
