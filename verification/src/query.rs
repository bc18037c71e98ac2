//! The metadata query engine: which documents a query selects, in which order
//! they come out and how many of them.

use crate::date::{bounds_contain, bounds_view, in_bounds, unbounded, Bounds, Date, Ymd};
use crate::meta::{ArticleMeta, ArticleMetaView, PostType};
use crate::text::{
    begins_with, contains_string, contains_text, has_substring, starts_with, text_before, text_lt,
    views,
};
use vstd::prelude::*;
use vstd::string::*;

verus! {

/// The order in which a query returns documents.
#[derive(Clone, Copy, Debug, PartialEq, Eq, Structural)]
pub enum SortType {
    CreateAsc,
    CreateDesc,
    UpdateAsc,
    UpdateDesc,
    NameAsc,
    NameDesc,
}

impl Default for SortType {
    fn default() -> (r: SortType)
        ensures
            r == SortType::CreateDesc,
    {
        SortType::CreateDesc
    }
}

impl SortType {
    /// Whether a document with metadata `a` comes strictly before one with
    /// metadata `b`: by date of creation, by date of update or by title, upwards
    /// or downwards.
    pub open spec fn before(self, a: ArticleMetaView, b: ArticleMetaView) -> bool {
        match self {
            SortType::CreateAsc => a.created.key() < b.created.key(),
            SortType::CreateDesc => b.created.key() < a.created.key(),
            SortType::UpdateAsc => a.updated.key() < b.updated.key(),
            SortType::UpdateDesc => b.updated.key() < a.updated.key(),
            SortType::NameAsc => text_lt(a.title, b.title),
            SortType::NameDesc => text_lt(b.title, a.title),
        }
    }

    /// The name under which the order is written.
    pub open spec fn name(self) -> Seq<char> {
        match self {
            SortType::CreateAsc => "CreateAsc"@,
            SortType::CreateDesc => "CreateDesc"@,
            SortType::UpdateAsc => "UpdateAsc"@,
            SortType::UpdateDesc => "UpdateDesc"@,
            SortType::NameAsc => "NameAsc"@,
            SortType::NameDesc => "NameDesc"@,
        }
    }

    /// The order that a name denotes.
    pub open spec fn named(name: Seq<char>) -> Option<SortType> {
        if name == "CreateAsc"@ {
            Some(SortType::CreateAsc)
        } else if name == "CreateDesc"@ {
            Some(SortType::CreateDesc)
        } else if name == "UpdateAsc"@ {
            Some(SortType::UpdateAsc)
        } else if name == "UpdateDesc"@ {
            Some(SortType::UpdateDesc)
        } else if name == "NameAsc"@ {
            Some(SortType::NameAsc)
        } else if name == "NameDesc"@ {
            Some(SortType::NameDesc)
        } else {
            None
        }
    }

    /// The name under which the order is written.
    pub fn as_str(&self) -> (r: &'static str)
        ensures
            r@ == self.name(),
    {
        match self {
            SortType::CreateAsc => "CreateAsc",
            SortType::CreateDesc => "CreateDesc",
            SortType::UpdateAsc => "UpdateAsc",
            SortType::UpdateDesc => "UpdateDesc",
            SortType::NameAsc => "NameAsc",
            SortType::NameDesc => "NameDesc",
        }
    }

    /// The order that a name denotes.
    pub fn from_name(name: &str) -> (r: Option<SortType>)
        ensures
            r == SortType::named(name@),
    {
        let owned = name.to_owned();
        if owned == "CreateAsc".to_owned() {
            Some(SortType::CreateAsc)
        } else if owned == "CreateDesc".to_owned() {
            Some(SortType::CreateDesc)
        } else if owned == "UpdateAsc".to_owned() {
            Some(SortType::UpdateAsc)
        } else if owned == "UpdateDesc".to_owned() {
            Some(SortType::UpdateDesc)
        } else if owned == "NameAsc".to_owned() {
            Some(SortType::NameAsc)
        } else if owned == "NameDesc".to_owned() {
            Some(SortType::NameDesc)
        } else {
            None
        }
    }

    /// A name denotes the order that it is the name of.
    pub proof fn lemma_name_round_trip(self)
        ensures
            SortType::named(self.name()) == Some(self),
    {
        reveal_strlit("CreateAsc");
        reveal_strlit("CreateDesc");
        reveal_strlit("UpdateAsc");
        reveal_strlit("UpdateDesc");
        reveal_strlit("NameAsc");
        reveal_strlit("NameDesc");
        assert("CreateAsc"@.len() == 9 && "CreateAsc"@[0] == 'C');
        assert("CreateDesc"@.len() == 10 && "CreateDesc"@[0] == 'C');
        assert("UpdateAsc"@.len() == 9 && "UpdateAsc"@[0] == 'U');
        assert("UpdateDesc"@.len() == 10 && "UpdateDesc"@[0] == 'U');
        assert("NameAsc"@.len() == 7);
        assert("NameDesc"@.len() == 8);
    }

    /// Whether a document with metadata `a` comes strictly before one with metadata `b`.
    pub fn comes_before(&self, a: &ArticleMeta, b: &ArticleMeta) -> (r: bool)
        ensures
            r == self.before(a@, b@),
    {
        match self {
            SortType::CreateAsc => a.created.before(&b.created),
            SortType::CreateDesc => b.created.before(&a.created),
            SortType::UpdateAsc => a.updated.before(&b.updated),
            SortType::UpdateDesc => b.updated.before(&a.updated),
            SortType::NameAsc => text_before(a.title.as_str(), b.title.as_str()),
            SortType::NameDesc => text_before(b.title.as_str(), a.title.as_str()),
        }
    }
}

/// A query over the stored documents.
#[derive(Debug, PartialEq, Eq)]
pub struct Search {
    /// Only paths that begin with this text.
    pub search_path: String,
    /// No path that begins with one of these.
    pub exclude_paths: Vec<String>,
    /// Only documents that bear all of these tags.
    pub tags: Vec<String>,
    /// Only documents of this type.
    pub post_type: Option<PostType>,
    /// Only documents created in this interval.
    pub created: Bounds<Date>,
    /// Only documents updated in this interval.
    pub updated: Bounds<Date>,
    /// Only documents whose title holds this text.
    pub title_filter: Option<String>,
    pub sort_type: SortType,
    /// At most this many documents.
    pub limit: Option<u32>,
    /// Hidden documents too.
    pub ignore_hidden: bool,
}

/// The view of a [`Search`].
pub struct SearchView {
    pub search_path: Seq<char>,
    pub exclude_paths: Seq<Seq<char>>,
    pub tags: Seq<Seq<char>>,
    pub post_type: Option<PostType>,
    pub created: Bounds<Ymd>,
    pub updated: Bounds<Ymd>,
    pub title_filter: Option<Seq<char>>,
    pub sort_type: SortType,
    pub limit: Option<u32>,
    pub ignore_hidden: bool,
}

/// The view of an optional string.
pub open spec fn option_view(s: Option<String>) -> Option<Seq<char>> {
    match s {
        Some(t) => Some(t@),
        None => None,
    }
}

/// The view of an optional string that is borrowed.
pub open spec fn option_view_ref(s: Option<&String>) -> Option<Seq<char>> {
    match s {
        Some(t) => Some(t@),
        None => None,
    }
}

impl View for Search {
    type V = SearchView;

    open spec fn view(&self) -> SearchView {
        SearchView {
            search_path: self.search_path@,
            exclude_paths: views(self.exclude_paths@),
            tags: views(self.tags@),
            post_type: self.post_type,
            created: bounds_view(self.created),
            updated: bounds_view(self.updated),
            title_filter: option_view(self.title_filter),
            sort_type: self.sort_type,
            limit: self.limit,
            ignore_hidden: self.ignore_hidden,
        }
    }
}

impl SearchView {
    /// The query that selects every visible document, newest first.
    pub open spec fn all() -> SearchView {
        SearchView {
            search_path: Seq::empty(),
            exclude_paths: Seq::empty(),
            tags: Seq::empty(),
            post_type: None,
            created: (crate::date::Bound::Unbounded, crate::date::Bound::Unbounded),
            updated: (crate::date::Bound::Unbounded, crate::date::Bound::Unbounded),
            title_filter: None,
            sort_type: SortType::CreateDesc,
            limit: None,
            ignore_hidden: false,
        }
    }

    /// No excluded prefix begins `path`.
    pub open spec fn not_excluded(self, path: Seq<char>) -> bool {
        forall|i: int| 0 <= i < self.exclude_paths.len() ==> !begins_with(path, self.exclude_paths[i])
    }

    /// The document bears every tag that the query asks for.
    pub open spec fn tags_held(self, meta: ArticleMetaView) -> bool {
        forall|i: int| 0 <= i < self.tags.len() ==> meta.tags.contains(self.tags[i])
    }

    /// Whether the query selects the document at `path` with metadata `meta`:
    /// every filter of the query holds of it.
    pub open spec fn matches(self, path: Seq<char>, meta: ArticleMetaView) -> bool {
        &&& begins_with(path, self.search_path)
        &&& self.not_excluded(path)
        &&& self.tags_held(meta)
        &&& (self.post_type matches Some(t) ==> meta.post_type == t)
        &&& in_bounds(self.created, meta.created)
        &&& in_bounds(self.updated, meta.updated)
        &&& (self.title_filter matches Some(f) ==> has_substring(meta.title, f))
        &&& (!meta.hidden || self.ignore_hidden)
    }
}

impl Search {
    /// The query that selects every visible document, newest first.
    pub fn new() -> (r: Search)
        ensures
            r@ == SearchView::all(),
    {
        let r = Search {
            search_path: String::new(),
            exclude_paths: Vec::new(),
            tags: Vec::new(),
            post_type: None,
            created: unbounded(),
            updated: unbounded(),
            title_filter: None,
            sort_type: SortType::CreateDesc,
            limit: None,
            ignore_hidden: false,
        };
        assert(r@.exclude_paths =~= Seq::empty());
        assert(r@.tags =~= Seq::empty());
        r
    }

    fn excludes(&self, path: &str) -> (r: bool)
        ensures
            r == !self@.not_excluded(path@),
    {
        let mut i: usize = 0;
        while i < self.exclude_paths.len()
            invariant
                i <= self.exclude_paths.len(),
                forall|k: int| 0 <= k < i ==> !begins_with(path@, self@.exclude_paths[k]),
            decreases self.exclude_paths.len() - i,
        {
            if starts_with(path, self.exclude_paths[i].as_str()) {
                assert(begins_with(path@, self@.exclude_paths[i as int]));
                return true;
            }
            i += 1;
        }
        false
    }

    fn tags_held(&self, meta: &ArticleMeta) -> (r: bool)
        ensures
            r == self@.tags_held(meta@),
    {
        let mut i: usize = 0;
        while i < self.tags.len()
            invariant
                i <= self.tags.len(),
                forall|k: int| 0 <= k < i ==> meta@.tags.contains(self@.tags[k]),
            decreases self.tags.len() - i,
        {
            if !contains_string(&meta.tags, self.tags[i].as_str()) {
                assert(!meta@.tags.contains(self@.tags[i as int]));
                return false;
            }
            i += 1;
        }
        true
    }

    /// Whether the query selects the document at `path` with metadata `meta`.
    pub fn matches(&self, path: &str, meta: &ArticleMeta) -> (r: bool)
        ensures
            r == self@.matches(path@, meta@),
    {
        if !starts_with(path, self.search_path.as_str()) {
            return false;
        }
        if self.excludes(path) {
            return false;
        }
        if !self.tags_held(meta) {
            return false;
        }
        match self.post_type {
            Some(t) => {
                if meta.post_type != t {
                    return false;
                }
            },
            None => {},
        }
        if !bounds_contain(&self.created, &meta.created) {
            return false;
        }
        if !bounds_contain(&self.updated, &meta.updated) {
            return false;
        }
        match &self.title_filter {
            Some(f) => {
                if !contains_text(meta.title.as_str(), f.as_str()) {
                    return false;
                }
            },
            None => {},
        }
        !meta.hidden || self.ignore_hidden
    }
}

/// Where a document with metadata `x` goes into the sorted sequence `s`: behind
/// the last document that does not come after it.
pub open spec fn insertion_point(s: Seq<(String, ArticleMeta)>, x: ArticleMetaView, by: SortType) -> int
    decreases s.len(),
{
    if s.len() == 0 {
        0
    } else if by.before(x, s.last().1@) {
        insertion_point(s.drop_last(), x, by)
    } else {
        s.len() as int
    }
}

/// The documents of `s` in the order `by`; documents of which neither comes
/// before the other keep the order that they have in `s`.
pub open spec fn sorted(s: Seq<(String, ArticleMeta)>, by: SortType) -> Seq<(String, ArticleMeta)>
    decreases s.len(),
{
    if s.len() == 0 {
        s
    } else {
        let rest = sorted(s.drop_last(), by);
        rest.insert(insertion_point(rest, s.last().1@, by), s.last())
    }
}

/// The first `limit` documents of `s`, or all of them where there is no limit.
pub open spec fn limited(s: Seq<(String, ArticleMeta)>, limit: Option<u32>) -> Seq<
    (String, ArticleMeta),
> {
    match limit {
        Some(n) => if n < s.len() {
            s.take(n as int)
        } else {
            s
        },
        None => s,
    }
}

/// The documents of `corpus` that `query` selects.
pub open spec fn selected(corpus: Seq<(String, ArticleMeta)>, query: SearchView) -> Seq<
    (String, ArticleMeta),
> {
    corpus.filter(|e: (String, ArticleMeta)| query.matches(e.0@, e.1@))
}

/// What a query returns: the documents that it selects, then sorted, then cut to
/// the limit.
pub open spec fn search_result(corpus: Seq<(String, ArticleMeta)>, query: SearchView) -> Seq<
    (String, ArticleMeta),
> {
    limited(sorted(selected(corpus, query), query.sort_type), query.limit)
}

/// Runs `query` over `corpus`, a list of paths with their metadata.
pub fn search(corpus: Vec<(String, ArticleMeta)>, query: &Search) -> (r: Vec<(String, ArticleMeta)>)
    ensures
        r@ == search_result(corpus@, query@),
{
    let ghost all = corpus@;
    let ghost pred = |e: (String, ArticleMeta)| query@.matches(e.0@, e.1@);
    let mut out: Vec<(String, ArticleMeta)> = Vec::new();
    assert(all.take(0) =~= Seq::empty());
    for entry in it: corpus
        invariant
            it.seq() == all,
            pred == |e: (String, ArticleMeta)| query@.matches(e.0@, e.1@),
            out@ == sorted(all.take(it.index() as int).filter(pred), query@.sort_type),
    {
        let ghost seen = all.take(it.index() as int);
        let ghost next = all.take(it.index() + 1);
        proof {
            assert(next =~= seen.push(entry));
            seen.lemma_filter_push(entry, pred);
        }
        if query.matches(entry.0.as_str(), &entry.1) {
            let ghost kept = seen.filter(pred);
            proof {
                assert(kept.push(entry).drop_last() =~= kept);
                assert(out@.take(out@.len() as int) =~= out@);
            }
            let mut at: usize = out.len();
            while at > 0 && query.sort_type.comes_before(&entry.1, &out[at - 1].1)
                invariant
                    at <= out.len(),
                    insertion_point(out@, entry.1@, query@.sort_type) == insertion_point(
                        out@.take(at as int),
                        entry.1@,
                        query@.sort_type,
                    ),
                decreases at,
            {
                proof {
                    assert(out@.take(at as int).drop_last() =~= out@.take(at - 1));
                }
                at -= 1;
            }
            out.insert(at, entry);
        }
    }
    assert(all.take(all.len() as int) =~= all);
    match query.limit {
        Some(n) => {
            if (n as usize) < out.len() {
                out.truncate(n as usize);
            }
        },
        None => {},
    }
    out
}

} // verus!
