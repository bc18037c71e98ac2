//! What holds of every query and every corpus.

use crate::meta::{ArticleMeta, ArticleMetaView};
use crate::query::{
    insertion_point, search_result, selected, sorted, SearchView, SortType,
};
use crate::text::{lemma_text_lt_irreflexive, lemma_text_lt_total, lemma_text_lt_transitive};
use vstd::prelude::*;
use vstd::seq_lib::*;

verus! {

/// The documents of `s` are in the order `by`: none comes strictly before a
/// document that stands ahead of it.
pub open spec fn ordered(s: Seq<(String, ArticleMeta)>, by: SortType) -> bool {
    forall|i: int, j: int| 0 <= i < j < s.len() ==> !by.before(s[j].1@, s[i].1@)
}

/// If `b` does not come before `a` and `c` does not come before `b`, then `c`
/// does not come before `a`.
pub proof fn lemma_order_chains(by: SortType, a: ArticleMetaView, b: ArticleMetaView, c: ArticleMetaView)
    requires
        !by.before(b, a),
        !by.before(c, b),
    ensures
        !by.before(c, a),
{
    match by {
        SortType::NameAsc => {
            if text_lt_of(c, a) {
                lemma_text_lt_total(a.title, b.title);
                lemma_text_lt_total(b.title, c.title);
                if a.title == b.title {
                } else if b.title == c.title {
                } else {
                    lemma_text_lt_transitive(a.title, b.title, c.title);
                    lemma_text_lt_transitive(a.title, c.title, a.title);
                    lemma_text_lt_irreflexive(a.title);
                }
            }
        },
        SortType::NameDesc => {
            if text_lt_of(a, c) {
                lemma_text_lt_total(a.title, b.title);
                lemma_text_lt_total(b.title, c.title);
                if a.title == b.title {
                } else if b.title == c.title {
                } else {
                    lemma_text_lt_transitive(c.title, b.title, a.title);
                    lemma_text_lt_transitive(c.title, a.title, c.title);
                    lemma_text_lt_irreflexive(c.title);
                }
            }
        },
        _ => {},
    }
}

/// Whether the title of `a` comes before the title of `b`.
pub open spec fn text_lt_of(a: ArticleMetaView, b: ArticleMetaView) -> bool {
    crate::text::text_lt(a.title, b.title)
}

/// The place at which a document is put into a sorted sequence lies in it; every
/// document behind that place comes after the new one, and the document just
/// ahead of it does not.
pub proof fn lemma_insertion_point(s: Seq<(String, ArticleMeta)>, x: ArticleMetaView, by: SortType)
    ensures
        0 <= insertion_point(s, x, by) <= s.len(),
        forall|k: int| insertion_point(s, x, by) <= k < s.len() ==> by.before(x, s[k].1@),
        insertion_point(s, x, by) > 0 ==> !by.before(x, s[insertion_point(s, x, by) - 1].1@),
    decreases s.len(),
{
    if s.len() > 0 && by.before(x, s.last().1@) {
        let head = s.drop_last();
        lemma_insertion_point(head, x, by);
        assert forall|k: int| insertion_point(s, x, by) <= k < s.len() implies by.before(
            x,
            s[k].1@,
        ) by {
            if k < head.len() {
                assert(s[k] == head[k]);
            }
        }
        if insertion_point(s, x, by) > 0 {
            assert(s[insertion_point(s, x, by) - 1] == head[insertion_point(head, x, by) - 1]);
        }
    }
}

/// Sorting keeps every document, as often as it occurs, and puts them in order.
pub proof fn lemma_sorted(s: Seq<(String, ArticleMeta)>, by: SortType)
    ensures
        sorted(s, by).len() == s.len(),
        sorted(s, by).to_multiset() == s.to_multiset(),
        ordered(sorted(s, by), by),
    decreases s.len(),
{
    if s.len() > 0 {
        let rest = sorted(s.drop_last(), by);
        let x = s.last();
        let at = insertion_point(rest, x.1@, by);
        let out = rest.insert(at, x);
        lemma_sorted(s.drop_last(), by);
        lemma_insertion_point(rest, x.1@, by);
        to_multiset_insert(rest, at, x);
        assert(s =~= s.drop_last().push(x));
        to_multiset_build(s.drop_last(), x);
        assert forall|i: int, j: int| 0 <= i < j < out.len() implies !by.before(
            out[j].1@,
            out[i].1@,
        ) by {
            if j == at {
                // the new document stands behind out[i], which stood ahead of the place
                if at > 0 {
                    if i < at - 1 {
                        assert(out[i] == rest[i]);
                        assert(!by.before(rest[at - 1].1@, rest[i].1@));
                        lemma_order_chains(by, rest[i].1@, rest[at - 1].1@, x.1@);
                    } else {
                        assert(out[i] == rest[at - 1]);
                    }
                }
            } else if i == at {
                assert(out[j] == rest[j - 1]);
                assert(by.before(x.1@, rest[j - 1].1@));
                lemma_before_asymmetric(by, x.1@, rest[j - 1].1@);
            } else {
                let i0 = if i < at {
                    i
                } else {
                    i - 1
                };
                let j0 = if j < at {
                    j
                } else {
                    j - 1
                };
                assert(out[i] == rest[i0]);
                assert(out[j] == rest[j0]);
            }
        }
    } else {
        assert(sorted(s, by) =~= s);
    }
}

/// Of two documents at most one comes before the other.
pub proof fn lemma_before_asymmetric(by: SortType, a: ArticleMetaView, b: ArticleMetaView)
    requires
        by.before(a, b),
    ensures
        !by.before(b, a),
{
    match by {
        SortType::NameAsc => {
            if text_lt_of(b, a) {
                lemma_text_lt_transitive(a.title, b.title, a.title);
                lemma_text_lt_irreflexive(a.title);
            }
        },
        SortType::NameDesc => {
            if text_lt_of(a, b) {
                lemma_text_lt_transitive(a.title, b.title, a.title);
                lemma_text_lt_irreflexive(a.title);
            }
        },
        _ => {},
    }
}

/// Whether neither of two documents comes before the other.
pub open spec fn tied(by: SortType, a: ArticleMetaView, b: ArticleMetaView) -> bool {
    !by.before(a, b) && !by.before(b, a)
}

/// Two documents that are tied with a third are tied with each other.
pub proof fn lemma_ties_chain(by: SortType, a: ArticleMetaView, b: ArticleMetaView, x: ArticleMetaView)
    requires
        tied(by, a, x),
        tied(by, b, x),
    ensures
        tied(by, a, b),
{
    match by {
        SortType::NameAsc => {
            lemma_text_lt_total(a.title, x.title);
            lemma_text_lt_total(b.title, x.title);
            lemma_text_lt_irreflexive(a.title);
        },
        SortType::NameDesc => {
            lemma_text_lt_total(a.title, x.title);
            lemma_text_lt_total(b.title, x.title);
            lemma_text_lt_irreflexive(a.title);
        },
        _ => {},
    }
}

/// Sorting is stable: the documents that are tied with `x` stand in the sorted
/// sequence in the order that they have in `s`.
pub proof fn lemma_sorted_stable(s: Seq<(String, ArticleMeta)>, by: SortType, x: ArticleMetaView)
    ensures
        sorted(s, by).filter(|e: (String, ArticleMeta)| tied(by, e.1@, x)) == s.filter(
            |e: (String, ArticleMeta)| tied(by, e.1@, x),
        ),
    decreases s.len(),
{
    let f = |e: (String, ArticleMeta)| tied(by, e.1@, x);
    if s.len() == 0 {
        assert(sorted(s, by) =~= s);
    } else {
        let head = s.drop_last();
        let y = s.last();
        let rest = sorted(head, by);
        let at = insertion_point(rest, y.1@, by);
        let out = rest.insert(at, y);
        lemma_sorted_stable(head, by, x);
        lemma_insertion_point(rest, y.1@, by);
        assert(s =~= head.push(y));
        head.lemma_filter_push(y, f);
        let front = rest.take(at);
        let back = rest.skip(at);
        assert(rest =~= front + back);
        assert(out =~= front.push(y) + back);
        Seq::filter_distributes_over_add(front, back, f);
        Seq::filter_distributes_over_add(front.push(y), back, f);
        front.lemma_filter_push(y, f);
        if f(y) {
            assert forall|k: int| 0 <= k < back.len() implies !f(#[trigger] back[k]) by {
                assert(back[k] == rest[at + k]);
                assert(by.before(y.1@, rest[at + k].1@));
                if f(back[k]) {
                    lemma_ties_chain(by, y.1@, back[k].1@, x);
                }
            }
            assert(back.all(|e: (String, ArticleMeta)| !f(e)));
            back.lemma_all_neg_filter_empty(f);
            assert(back.filter(f) =~= Seq::empty());
            assert(front.filter(f) + back.filter(f) =~= front.filter(f));
            assert(front.filter(f).push(y) + back.filter(f) =~= front.filter(f).push(y));
        }
    }
}

/// Every document that a query returns stands in the corpus and meets every
/// filter of the query: path prefix, excluded prefixes, tags, post type, both
/// date intervals, title text and visibility.
pub proof fn lemma_search_sound(corpus: Seq<(String, ArticleMeta)>, query: SearchView)
    ensures
        forall|i: int|
            0 <= i < search_result(corpus, query).len() ==> {
                &&& corpus.contains(#[trigger] search_result(corpus, query)[i])
                &&& query.matches(
                    search_result(corpus, query)[i].0@,
                    search_result(corpus, query)[i].1@,
                )
            },
{
    let pred = |e: (String, ArticleMeta)| query.matches(e.0@, e.1@);
    let chosen = selected(corpus, query);
    let in_order = sorted(chosen, query.sort_type);
    let result = search_result(corpus, query);
    lemma_sorted(chosen, query.sort_type);
    assert forall|i: int| 0 <= i < result.len() implies {
        &&& corpus.contains(#[trigger] result[i])
        &&& query.matches(result[i].0@, result[i].1@)
    } by {
        let e = result[i];
        assert(in_order[i] == e);
        assert(in_order.contains(e));
        to_multiset_contains(in_order, e);
        to_multiset_contains(chosen, e);
        assert(chosen.contains(e));
        let k = choose|k: int| 0 <= k < chosen.len() && chosen[k] == e;
        corpus.lemma_filter_pred(pred, k);
        corpus.lemma_filter_contains_rev(pred, e);
    }
}

/// A query returns each document that it selects as often as the corpus holds
/// it, unless a limit cuts the result.
pub proof fn lemma_search_complete(corpus: Seq<(String, ArticleMeta)>, query: SearchView)
    requires
        query.limit is None,
    ensures
        search_result(corpus, query).to_multiset() == selected(corpus, query).to_multiset(),
        forall|i: int|
            0 <= i < corpus.len() && query.matches(corpus[i].0@, corpus[i].1@) ==> search_result(
                corpus,
                query,
            ).contains(#[trigger] corpus[i]),
{
    let pred = |e: (String, ArticleMeta)| query.matches(e.0@, e.1@);
    let chosen = selected(corpus, query);
    lemma_sorted(chosen, query.sort_type);
    assert forall|i: int|
        0 <= i < corpus.len() && query.matches(
            corpus[i].0@,
            corpus[i].1@,
        ) implies search_result(corpus, query).contains(#[trigger] corpus[i]) by {
        corpus.lemma_filter_contains(pred, i);
        to_multiset_contains(chosen, corpus[i]);
        to_multiset_contains(search_result(corpus, query), corpus[i]);
    }
}

/// What a query returns is in the order that the query names, and no longer
/// than its limit: the limit cuts the sorted result, not the corpus.
pub proof fn lemma_search_ordered(corpus: Seq<(String, ArticleMeta)>, query: SearchView)
    ensures
        ordered(search_result(corpus, query), query.sort_type),
        query.limit matches Some(n) ==> search_result(corpus, query).len() <= n,
        search_result(corpus, query).is_prefix_of(
            sorted(selected(corpus, query), query.sort_type),
        ),
{
    let in_order = sorted(selected(corpus, query), query.sort_type);
    let result = search_result(corpus, query);
    lemma_sorted(selected(corpus, query), query.sort_type);
    assert forall|i: int, j: int| 0 <= i < j < result.len() implies !query.sort_type.before(
        result[j].1@,
        result[i].1@,
    ) by {
        assert(result[i] == in_order[i]);
        assert(result[j] == in_order[j]);
    }
    assert(result =~= in_order.subrange(0, result.len() as int));
}

} // verus!
