//! The tags of the stored documents: which there are, and how often each is used.

use crate::assoc::{keys_of, lemma_find_key, position};
use crate::text::{lemma_text_lt_total, lemma_text_lt_transitive, text_before, text_lt, views};
use vstd::prelude::*;
use vstd::string::*;

verus! {

/// The tag lists of a sequence of documents, as text.
pub open spec fn rows_view(rows: Seq<Vec<String>>) -> Seq<Seq<Seq<char>>> {
    Seq::new(rows.len(), |i: int| views(rows[i]@))
}

/// The tags of all documents, one list after the other.
pub open spec fn flat_tags(rows: Seq<Seq<Seq<char>>>) -> Seq<Seq<char>>
    decreases rows.len(),
{
    if rows.len() == 0 {
        Seq::empty()
    } else {
        flat_tags(rows.drop_last()) + rows.last()
    }
}

/// Each text comes before the next.
pub open spec fn ascending(s: Seq<Seq<char>>) -> bool {
    forall|i: int, j: int| 0 <= i < j < s.len() ==> text_lt(s[i], s[j])
}

/// How often `tag` occurs in `s`.
pub open spec fn occurrences(s: Seq<Seq<char>>, tag: Seq<char>) -> nat
    decreases s.len(),
{
    if s.len() == 0 {
        0
    } else if s.last() == tag {
        occurrences(s.drop_last(), tag) + 1
    } else {
        occurrences(s.drop_last(), tag)
    }
}

/// The texts of `s`, each once, in the order in which they first occur.
pub open spec fn first_occurrences(s: Seq<Seq<char>>) -> Seq<Seq<char>>
    decreases s.len(),
{
    if s.len() == 0 {
        Seq::empty()
    } else {
        let before = first_occurrences(s.drop_last());
        if before.contains(s.last()) {
            before
        } else {
            before.push(s.last())
        }
    }
}

/// The tags with their counts.
pub open spec fn counts_view(s: Seq<(String, usize)>) -> Seq<(Seq<char>, nat)> {
    Seq::new(s.len(), |i: int| (s[i].0@, s[i].1 as nat))
}

/// A count as it is kept: no more than the largest number that can be written.
pub open spec fn kept(count: nat) -> nat {
    if count > usize::MAX {
        usize::MAX as nat
    } else {
        count
    }
}

/// All tags of all lists, in one list.
pub fn flatten_tags(rows: &Vec<Vec<String>>) -> (r: Vec<String>)
    ensures
        views(r@) == flat_tags(rows_view(rows@)),
{
    let ghost all = rows_view(rows@);
    let mut out: Vec<String> = Vec::new();
    let mut i: usize = 0;
    assert(all.take(0) =~= Seq::empty());
    assert(views(out@) =~= Seq::empty());
    while i < rows.len()
        invariant
            i <= rows.len(),
            all == rows_view(rows@),
            views(out@) == flat_tags(all.take(i as int)),
        decreases rows.len() - i,
    {
        proof {
            assert(all.take(i + 1).drop_last() =~= all.take(i as int));
            assert(all.take(i + 1).last() == views(rows[i as int]@));
        }
        let ghost before = views(out@);
        let row = &rows[i];
        let mut k: usize = 0;
        assert(before + views(row@).take(0) =~= before);
        while k < row.len()
            invariant
                k <= row.len(),
                views(out@) == before + views(row@).take(k as int),
            decreases row.len() - k,
        {
            let ghost so_far = views(out@);
            out.push(row[k].clone());
            assert(views(out@) =~= so_far.push(row[k as int]@));
            assert(views(out@) =~= before + views(row@).take(k + 1));
            k += 1;
        }
        assert(views(row@).take(k as int) =~= views(row@));
        i += 1;
    }
    assert(all.take(i as int) =~= all);
    out
}

/// The tags that the documents bear, each once, in the order of texts.
pub fn tags(rows: &Vec<Vec<String>>) -> (r: Vec<String>)
    ensures
        ascending(views(r@)),
        forall|t: Seq<char>| views(r@).contains(t) <==> flat_tags(rows_view(rows@)).contains(t),
{
    let flat = flatten_tags(rows);
    let ghost all = views(flat@);
    let mut out: Vec<String> = Vec::new();
    let mut i: usize = 0;
    while i < flat.len()
        invariant
            i <= flat.len(),
            all == views(flat@),
            ascending(views(out@)),
            forall|t: Seq<char>| views(out@).contains(t) <==> all.take(i as int).contains(t),
        decreases flat.len() - i,
    {
        let tag = &flat[i];
        let ghost old_out = views(out@);
        let mut at: usize = 0;
        while at < out.len() && text_before(out[at].as_str(), tag.as_str())
            invariant
                at <= out.len(),
                old_out == views(out@),
                forall|k: int| 0 <= k < at ==> text_lt(old_out[k], tag@),
            decreases out.len() - at,
        {
            at += 1;
        }
        let present = at < out.len() && out[at] == *tag;
        proof {
            assert(all.take(i + 1) =~= all.take(i as int).push(tag@));
            lemma_push_contains(all.take(i as int), tag@);
        }
        if present {
            assert(old_out[at as int] == tag@);
            assert(old_out.contains(tag@));
        } else {
            out.insert(at, tag.clone());
            proof {
                let new_out = views(out@);
                assert(new_out =~= old_out.insert(at as int, tag@));
                if at < old_out.len() {
                    lemma_text_lt_total(old_out[at as int], tag@);
                }
                assert forall|a: int, b: int| 0 <= a < b < new_out.len() implies text_lt(
                    new_out[a],
                    new_out[b],
                ) by {
                    if b == at {
                        assert(new_out[a] == old_out[a]);
                    } else if a == at {
                        assert(new_out[b] == old_out[b - 1]);
                        if b - 1 > at {
                            lemma_text_lt_transitive(tag@, old_out[at as int], old_out[b - 1]);
                        }
                    } else {
                        let a0 = if a < at {
                            a
                        } else {
                            a - 1
                        };
                        let b0 = if b < at {
                            b
                        } else {
                            b - 1
                        };
                        assert(new_out[a] == old_out[a0] && new_out[b] == old_out[b0]);
                    }
                }
                assert forall|t: Seq<char>| new_out.contains(t) <==> old_out.contains(t) || t
                    == tag@ by {
                    if new_out.contains(t) {
                        let k = choose|k: int| 0 <= k < new_out.len() && new_out[k] == t;
                        if k < at {
                            assert(old_out[k] == t);
                        } else if k > at {
                            assert(old_out[k - 1] == t);
                        }
                    }
                    if old_out.contains(t) {
                        let k = choose|k: int| 0 <= k < old_out.len() && old_out[k] == t;
                        if k < at {
                            assert(new_out[k] == t);
                        } else {
                            assert(new_out[k + 1] == t);
                        }
                    }
                    if t == tag@ {
                        assert(new_out[at as int] == t);
                    }
                }
            }
        }
        i += 1;
    }
    assert(all.take(i as int) =~= all);
    out
}

/// How often each tag is used: each tag once, in the order in which the tags
/// first occur, with the number of its occurrences.
pub fn tag_counts(rows: &Vec<Vec<String>>) -> (r: Vec<(String, usize)>)
    ensures
        keys_of(r@) == first_occurrences(flat_tags(rows_view(rows@))),
        forall|i: int, j: int|
            0 <= i < j < r@.len() ==> counts_view(r@)[i].0 != counts_view(r@)[j].0,
        forall|i: int|
            0 <= i < r@.len() ==> (#[trigger] counts_view(r@)[i]).1 == kept(
                occurrences(flat_tags(rows_view(rows@)), counts_view(r@)[i].0),
            ) && counts_view(r@)[i].1 > 0,
        forall|t: Seq<char>|
            flat_tags(rows_view(rows@)).contains(t) ==> keys_of(r@).contains(t),
{
    let flat = flatten_tags(rows);
    let ghost all = views(flat@);
    let mut out: Vec<(String, usize)> = Vec::new();
    let mut i: usize = 0;
    assert(all.take(0) =~= Seq::empty());
    assert(keys_of(out@) =~= Seq::empty());
    while i < flat.len()
        invariant
            i <= flat.len(),
            all == views(flat@),
            keys_of(out@) == first_occurrences(all.take(i as int)),
            forall|a: int, b: int| 0 <= a < b < out@.len() ==> out@[a].0@ != out@[b].0@,
            forall|k: int|
                0 <= k < out@.len() ==> (#[trigger] out@[k]).1 == kept(
                    occurrences(all.take(i as int), out@[k].0@),
                ) && out@[k].1 > 0,
            forall|t: Seq<char>| all.take(i as int).contains(t) ==> keys_of(out@).contains(t),
        decreases flat.len() - i,
    {
        let tag = &flat[i];
        let ghost before = out@;
        let ghost seen = all.take(i as int);
        proof {
            assert(all.take(i + 1).drop_last() =~= seen);
            assert(all.take(i + 1).last() == tag@);
            lemma_find_key(keys_of(before), tag@);
        }
        match position(&out, tag.as_str()) {
            Some(at) => {
                let count = out[at].1;
                let next = if count < usize::MAX {
                    count + 1
                } else {
                    count
                };
                out.set(at, (tag.clone(), next));
                proof {
                    assert(before[at as int].0@ == tag@);
                    assert(keys_of(before)[at as int] == tag@);
                    assert(keys_of(out@) =~= keys_of(before));
                    assert forall|k: int| 0 <= k < out@.len() implies (#[trigger] out@[k]).1
                        == kept(occurrences(all.take(i + 1), out@[k].0@)) && out@[k].1 > 0 by {
                        if k != at {
                            assert(out@[k] == before[k]);
                            if k < at {
                                assert(before[k].0@ != before[at as int].0@);
                            } else {
                                assert(before[at as int].0@ != before[k].0@);
                            }
                        }
                    }
                    assert forall|a: int, b: int| 0 <= a < b < out@.len() implies out@[a].0@
                        != out@[b].0@ by {
                        assert(out@[a].0@ == before[a].0@ && out@[b].0@ == before[b].0@);
                    }
                    assert(all.take(i + 1) =~= seen.push(tag@));
                    lemma_push_contains(seen, tag@);
                    assert forall|t: Seq<char>| all.take(i + 1).contains(t) implies keys_of(
                        out@,
                    ).contains(t) by {
                        if seen.contains(t) {
                            assert(keys_of(before).contains(t));
                            let m = choose|m: int|
                                0 <= m < keys_of(before).len() && keys_of(before)[m] == t;
                            assert(keys_of(out@)[m] == t);
                        } else {
                            assert(keys_of(out@)[at as int] == t);
                        }
                    }
                }
            },
            None => {
                out.push((tag.clone(), 1));
                proof {
                    assert(keys_of(out@) =~= keys_of(before).push(tag@));
                    assert forall|k: int| 0 <= k < before.len() implies before[k].0@ != tag@ by {
                        assert(keys_of(before)[k] == before[k].0@);
                    }
                    lemma_absent_occurs_not(seen, tag@);
                    assert(!seen.contains(tag@)) by {
                        if seen.contains(tag@) {
                            assert(keys_of(before).contains(tag@));
                        }
                    }
                    assert forall|k: int| 0 <= k < out@.len() implies (#[trigger] out@[k]).1
                        == kept(occurrences(all.take(i + 1), out@[k].0@)) && out@[k].1 > 0 by {
                        if k < before.len() {
                            assert(out@[k] == before[k]);
                        }
                    }
                    assert(all.take(i + 1) =~= seen.push(tag@));
                    lemma_push_contains(seen, tag@);
                    assert forall|t: Seq<char>| all.take(i + 1).contains(t) implies keys_of(
                        out@,
                    ).contains(t) by {
                        if seen.contains(t) {
                            assert(keys_of(before).contains(t));
                            let m = choose|m: int|
                                0 <= m < keys_of(before).len() && keys_of(before)[m] == t;
                            assert(keys_of(out@)[m] == t);
                        } else {
                            assert(keys_of(out@)[before.len() as int] == t);
                        }
                    }
                }
            },
        }
        i += 1;
    }
    assert(all.take(i as int) =~= all);
    proof {
        assert forall|a: int, b: int| 0 <= a < b < out@.len() implies counts_view(out@)[a].0
            != counts_view(out@)[b].0 by {
            assert(out@[a].0@ != out@[b].0@);
        }
        assert forall|k: int| 0 <= k < out@.len() implies (#[trigger] counts_view(out@)[k]).1
            == kept(occurrences(all, counts_view(out@)[k].0)) && counts_view(out@)[k].1 > 0 by {
            assert(out@[k].1 == kept(occurrences(all, out@[k].0@)));
        }
    }
    out
}

/// A sequence with one more text holds that text and what it held before.
pub proof fn lemma_push_contains(s: Seq<Seq<char>>, x: Seq<char>)
    ensures
        forall|t: Seq<char>| s.push(x).contains(t) <==> s.contains(t) || t == x,
{
    let longer = s.push(x);
    assert forall|t: Seq<char>| longer.contains(t) <==> s.contains(t) || t == x by {
        if longer.contains(t) {
            let k = choose|k: int| 0 <= k < longer.len() && longer[k] == t;
            if k < s.len() {
                assert(s[k] == t);
            }
        }
        if s.contains(t) {
            let k = choose|k: int| 0 <= k < s.len() && s[k] == t;
            assert(longer[k] == t);
        }
        if t == x {
            assert(longer[s.len() as int] == t);
        }
    }
}

/// A text that a sequence does not hold occurs in it no times.
pub proof fn lemma_absent_occurs_not(s: Seq<Seq<char>>, tag: Seq<char>)
    ensures
        !s.contains(tag) ==> occurrences(s, tag) == 0,
        s.contains(tag) ==> occurrences(s, tag) > 0,
    decreases s.len(),
{
    if s.len() > 0 {
        lemma_absent_occurs_not(s.drop_last(), tag);
        if s.contains(tag) {
            let k = choose|k: int| 0 <= k < s.len() && s[k] == tag;
            if k < s.len() - 1 {
                assert(s.drop_last()[k] == tag);
            }
        } else {
            if s.drop_last().contains(tag) {
                let k = choose|k: int| 0 <= k < s.len() - 1 && s.drop_last()[k] == tag;
                assert(s[k] == tag);
            }
            assert(s[s.len() - 1] != tag);
        }
    }
}

} // verus!
