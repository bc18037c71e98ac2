//! Reading the metadata of a document from its front matter.

use crate::assoc::{find_key, keys_of, position};
use crate::date::{parsed_date, Date, Ymd};
use crate::meta::{tocs_view, ArticleMeta, ArticleMetaView, PostType, Toc, TocView};
use crate::text::{same_text, views};
use crate::tree::{
    entries_view, entry_keys, meta_get, meta_lookup, values_view, MetaValue, MetaValueView, Tree,
};
use vstd::prelude::*;
use vstd::string::*;

verus! {

/// The title of a document that names none.
pub const DEFAULT_TITLE: &'static str = "Untitled Page";

/// The template of a document that names none.
pub const DEFAULT_TEMPLATE: &'static str = "article.html.tera";

/// A field of the metadata that the front matter can set.
#[derive(Clone, Copy, Debug, PartialEq, Eq, Structural)]
pub enum Field {
    Title,
    PostType,
    Blurb,
    Tags,
    Template,
    Toc,
    ExcludeFromRss,
    Hidden,
    Updated,
    Created,
    Ready,
    AlwaysRerender,
    Mentioners,
    Mentions,
}

/// Why a front matter gives no metadata.
#[derive(Clone, Copy, Debug, PartialEq, Eq, Structural)]
pub enum MetaError {
    /// The field must be set and is not.
    Missing(Field),
    /// The field is set to a value that it cannot have.
    Invalid(Field),
}

impl Field {
    /// The key under which the front matter sets the field.
    pub open spec fn key(self) -> Seq<char> {
        match self {
            Field::Title => "title"@,
            Field::PostType => "post_type"@,
            Field::Blurb => "blurb"@,
            Field::Tags => "tags"@,
            Field::Template => "template"@,
            Field::Toc => "toc"@,
            Field::ExcludeFromRss => "exclude_from_rss"@,
            Field::Hidden => "hidden"@,
            Field::Updated => "updated"@,
            Field::Created => "created"@,
            Field::Ready => "ready"@,
            Field::AlwaysRerender => "always_rerender"@,
            Field::Mentioners => "mentioners"@,
            Field::Mentions => "mentions"@,
        }
    }

    /// The key under which the front matter sets the field.
    pub fn as_str(&self) -> (r: &'static str)
        ensures
            r@ == self.key(),
    {
        match self {
            Field::Title => "title",
            Field::PostType => "post_type",
            Field::Blurb => "blurb",
            Field::Tags => "tags",
            Field::Template => "template",
            Field::Toc => "toc",
            Field::ExcludeFromRss => "exclude_from_rss",
            Field::Hidden => "hidden",
            Field::Updated => "updated",
            Field::Created => "created",
            Field::Ready => "ready",
            Field::AlwaysRerender => "always_rerender",
            Field::Mentioners => "mentioners",
            Field::Mentions => "mentions",
        }
    }
}

/// Whether a key is that of a field.
pub open spec fn is_field_key(key: Seq<char>) -> bool {
    exists|f: Field| f.key() == key
}

/// The text that a value is, if it is one.
pub open spec fn as_text(value: MetaValueView) -> Option<Seq<char>> {
    match value {
        MetaValueView::MetaString(s) => Some(s),
        _ => None,
    }
}

/// The flag that a value is, if it is one.
pub open spec fn as_flag(value: MetaValueView) -> Option<bool> {
    match value {
        MetaValueView::MetaBool(b) => Some(b),
        _ => None,
    }
}

/// The texts that the values are, if each is one.
pub open spec fn all_texts(values: Seq<MetaValueView>) -> Option<Seq<Seq<char>>> {
    if forall|i: int| 0 <= i < values.len() ==> as_text(#[trigger] values[i]) is Some {
        Some(Seq::new(values.len(), |i: int| as_text(values[i])->0))
    } else {
        None
    }
}

/// The list of texts that a value is, if it is one.
pub open spec fn as_texts(value: MetaValueView) -> Option<Seq<Seq<char>>> {
    match value {
        MetaValueView::MetaList(items) => all_texts(items),
        _ => None,
    }
}

/// The day that a value names, if it names one.
pub open spec fn as_day(value: MetaValueView) -> Option<Ymd> {
    match value {
        MetaValueView::MetaString(s) => parsed_date(s),
        _ => None,
    }
}

/// The type of post that a value names, if it names one.
pub open spec fn as_post_type(value: MetaValueView) -> Option<PostType> {
    match value {
        MetaValueView::MetaString(s) => PostType::named(s),
        _ => None,
    }
}

/// The entry of a table of contents that a value is, if it is one: a map with
/// the one key `Text` and a text, or with the one key `Heading` and a map that
/// sets `label`, `anchor` and `subheadings`.
pub open spec fn as_toc_entry(value: MetaValueView) -> Option<TocView>
    decreases value,
{
    match value {
        MetaValueView::MetaMap(entries) => if entries.len() != 1 {
            None
        } else if entries[0].0 == "Text"@ {
            match as_text(entries[0].1) {
                Some(text) => Some(TocView::Text(text)),
                None => None,
            }
        } else if entries[0].0 == "Heading"@ {
            match entries[0].1 {
                MetaValueView::MetaMap(fields) => {
                    let label = meta_lookup(fields, "label"@);
                    let anchor = meta_lookup(fields, "anchor"@);
                    let below = find_key(entry_keys(fields), "subheadings"@);
                    if label is Some && anchor is Some && below is Some && as_text(label->0) is Some
                        && as_text(anchor->0) is Some {
                        match as_toc(fields[below->0].1) {
                            Some(subheadings) => Some(
                                TocView::Heading {
                                    label: as_text(label->0)->0,
                                    anchor: as_text(anchor->0)->0,
                                    subheadings,
                                },
                            ),
                            None => None,
                        }
                    } else {
                        None
                    }
                },
                _ => None,
            }
        } else {
            None
        },
        _ => None,
    }
}

/// The entries that the values are, if each is one.
pub open spec fn all_toc_entries(values: Seq<MetaValueView>) -> Option<Seq<TocView>>
    decreases values,
{
    if values.len() == 0 {
        Some(Seq::empty())
    } else {
        match (all_toc_entries(values.drop_last()), as_toc_entry(values.last())) {
            (Some(rest), Some(entry)) => Some(rest.push(entry)),
            _ => None,
        }
    }
}

/// The table of contents that a value is, if it is one.
pub open spec fn as_toc(value: MetaValueView) -> Option<Seq<TocView>>
    decreases value,
{
    match value {
        MetaValueView::MetaList(items) => all_toc_entries(items),
        _ => None,
    }
}

/// The entries of the front matter whose key is that of no field.
pub open spec fn extras(entries: Seq<(Seq<char>, MetaValueView)>) -> Seq<(Seq<char>, MetaValueView)>
    decreases entries.len(),
{
    if entries.len() == 0 {
        Seq::empty()
    } else if is_field_key(entries.last().0) {
        extras(entries.drop_last())
    } else {
        extras(entries.drop_last()).push(entries.last())
    }
}

/// What a field reads from a value: `Ok(None)` where the front matter does not
/// set the field, `Ok(Some(..))` where it sets it to a value that the field can
/// have, and the error where it sets it to another.
pub open spec fn reading<T>(field: Field, value: Option<MetaValueView>, read: Option<T>) -> Result<
    Option<T>,
    MetaError,
> {
    match value {
        None => Ok(None),
        Some(_) => match read {
            Some(t) => Ok(Some(t)),
            None => Err(MetaError::Invalid(field)),
        },
    }
}

/// What a field that holds a text reads.
pub open spec fn read_text(entries: Seq<(Seq<char>, MetaValueView)>, field: Field) -> Result<
    Option<Seq<char>>,
    MetaError,
> {
    let value = meta_lookup(entries, field.key());
    reading(field, value, if value is Some { as_text(value->0) } else { None })
}

/// What a field that holds a flag reads.
pub open spec fn read_flag(entries: Seq<(Seq<char>, MetaValueView)>, field: Field) -> Result<
    Option<bool>,
    MetaError,
> {
    let value = meta_lookup(entries, field.key());
    reading(field, value, if value is Some { as_flag(value->0) } else { None })
}

/// What a field that holds a list of texts reads.
pub open spec fn read_texts(entries: Seq<(Seq<char>, MetaValueView)>, field: Field) -> Result<
    Option<Seq<Seq<char>>>,
    MetaError,
> {
    let value = meta_lookup(entries, field.key());
    reading(field, value, if value is Some { as_texts(value->0) } else { None })
}

/// What a field that holds a day reads.
pub open spec fn read_day(entries: Seq<(Seq<char>, MetaValueView)>, field: Field) -> Result<
    Option<Ymd>,
    MetaError,
> {
    let value = meta_lookup(entries, field.key());
    reading(field, value, if value is Some { as_day(value->0) } else { None })
}

/// What the field that holds the type of post reads.
pub open spec fn read_post_type(entries: Seq<(Seq<char>, MetaValueView)>) -> Result<
    Option<PostType>,
    MetaError,
> {
    let value = meta_lookup(entries, Field::PostType.key());
    reading(Field::PostType, value, if value is Some { as_post_type(value->0) } else { None })
}

/// What the field that holds the table of contents reads.
pub open spec fn read_toc(entries: Seq<(Seq<char>, MetaValueView)>) -> Result<
    Option<Seq<TocView>>,
    MetaError,
> {
    let value = meta_lookup(entries, Field::Toc.key());
    reading(Field::Toc, value, if value is Some { as_toc(value->0) } else { None })
}

/// The value of a field, or `default` where the front matter does not set it.
pub open spec fn or_default<T>(read: Option<T>, default: T) -> T {
    match read {
        Some(t) => t,
        None => default,
    }
}

/// The fields that describe a document.
pub struct Head {
    pub title: Seq<char>,
    pub post_type: PostType,
    pub blurb: Seq<char>,
    pub tags: Seq<Seq<char>>,
    pub template: Seq<char>,
    pub toc: Seq<TocView>,
}

/// The fields that say when and whether a document is shown.
pub struct Status {
    pub exclude_from_rss: bool,
    pub hidden: bool,
    pub updated: Ymd,
    pub created: Ymd,
    pub ready: bool,
    pub always_rerender: bool,
}

/// The fields that say whom a document mentions and who mentions it.
pub struct Ties {
    pub mentioners: Seq<Seq<char>>,
    pub mentions: Seq<Seq<char>>,
}

/// The describing fields of a front matter, or what is wrong with the first of
/// them that is set to a value that it cannot have.
pub open spec fn head_of(entries: Seq<(Seq<char>, MetaValueView)>) -> Result<Head, MetaError> {
    match read_text(entries, Field::Title) {
        Err(e) => Err(e),
        Ok(title) => match read_post_type(entries) {
            Err(e) => Err(e),
            Ok(post_type) => match read_text(entries, Field::Blurb) {
                Err(e) => Err(e),
                Ok(blurb) => match read_texts(entries, Field::Tags) {
                    Err(e) => Err(e),
                    Ok(tags) => match read_text(entries, Field::Template) {
                        Err(e) => Err(e),
                        Ok(template) => match read_toc(entries) {
                            Err(e) => Err(e),
                            Ok(toc) => Ok(
                                Head {
                                    title: or_default(title, DEFAULT_TITLE@),
                                    post_type: or_default(post_type, PostType::Note),
                                    blurb: or_default(blurb, Seq::empty()),
                                    tags: or_default(tags, Seq::empty()),
                                    template: or_default(template, DEFAULT_TEMPLATE@),
                                    toc: or_default(toc, Seq::empty()),
                                },
                            ),
                        },
                    },
                },
            },
        },
    }
}

/// A date that must be set: what the field reads, or that it is missing.
pub open spec fn required_day(entries: Seq<(Seq<char>, MetaValueView)>, field: Field) -> Result<
    Ymd,
    MetaError,
> {
    match read_day(entries, field) {
        Err(e) => Err(e),
        Ok(None) => Err(MetaError::Missing(field)),
        Ok(Some(day)) => Ok(day),
    }
}

/// The fields of a front matter that say when and whether the document is
/// shown, or what is wrong with the first of them that is wrong.
pub open spec fn status_of(entries: Seq<(Seq<char>, MetaValueView)>) -> Result<Status, MetaError> {
    match read_flag(entries, Field::ExcludeFromRss) {
        Err(e) => Err(e),
        Ok(exclude_from_rss) => match read_flag(entries, Field::Hidden) {
            Err(e) => Err(e),
            Ok(hidden) => match required_day(entries, Field::Updated) {
                Err(e) => Err(e),
                Ok(updated) => match required_day(entries, Field::Created) {
                    Err(e) => Err(e),
                    Ok(created) => match read_flag(entries, Field::Ready) {
                        Err(e) => Err(e),
                        Ok(ready) => match read_flag(entries, Field::AlwaysRerender) {
                            Err(e) => Err(e),
                            Ok(always_rerender) => Ok(
                                Status {
                                    exclude_from_rss: or_default(exclude_from_rss, false),
                                    hidden: or_default(hidden, false),
                                    updated,
                                    created,
                                    ready: or_default(ready, false),
                                    always_rerender: or_default(always_rerender, false),
                                },
                            ),
                        },
                    },
                },
            },
        },
    }
}

/// The mentions of a front matter, or what is wrong with the first of the two
/// lists that is wrong.
pub open spec fn ties_of(entries: Seq<(Seq<char>, MetaValueView)>) -> Result<Ties, MetaError> {
    match read_texts(entries, Field::Mentioners) {
        Err(e) => Err(e),
        Ok(mentioners) => match read_texts(entries, Field::Mentions) {
            Err(e) => Err(e),
            Ok(mentions) => Ok(
                Ties {
                    mentioners: or_default(mentioners, Seq::empty()),
                    mentions: or_default(mentions, Seq::empty()),
                },
            ),
        },
    }
}

/// The metadata that a front matter gives. Each field is what the front matter
/// sets it to, or its default: `Untitled Page` for the title, `Note` for the
/// type of post, `article.html.tera` for the template, nothing for texts and
/// lists, and no for flags. The two dates have no default. The entries that
/// set no field are kept beside the fields. Where several fields are wrong,
/// the error names the first in the order title, post type, blurb, tags,
/// template, table of contents, the flags and dates, mentioners, mentions.
pub open spec fn metadata_of(entries: Seq<(Seq<char>, MetaValueView)>) -> Result<
    ArticleMetaView,
    MetaError,
> {
    match head_of(entries) {
        Err(e) => Err(e),
        Ok(head) => match status_of(entries) {
            Err(e) => Err(e),
            Ok(status) => match ties_of(entries) {
                Err(e) => Err(e),
                Ok(ties) => Ok(
                    ArticleMetaView {
                        title: head.title,
                        post_type: head.post_type,
                        blurb: head.blurb,
                        tags: head.tags,
                        template: head.template,
                        toc: head.toc,
                        exclude_from_rss: status.exclude_from_rss,
                        hidden: status.hidden,
                        updated: status.updated,
                        created: status.created,
                        ready: status.ready,
                        always_rerender: status.always_rerender,
                        extra: extras(entries),
                        mentioners: ties.mentioners,
                        mentions: ties.mentions,
                    },
                ),
            },
        },
    }
}

fn text_of(value: &MetaValue) -> (r: Option<String>)
    ensures
        match r {
            Some(s) => as_text(value.view()) == Some(s@),
            None => as_text(value.view()) is None,
        },
{
    match value {
        MetaValue::MetaString(s) => Some(s.clone()),
        _ => None,
    }
}

fn flag_of(value: &MetaValue) -> (r: Option<bool>)
    ensures
        r == as_flag(value.view()),
{
    match value {
        MetaValue::MetaBool(b) => Some(*b),
        _ => None,
    }
}

fn texts_in(items: &Vec<MetaValue>) -> (r: Option<Vec<String>>)
    ensures
        match r {
            Some(v) => all_texts(values_view(items@)) == Some(views(v@)),
            None => all_texts(values_view(items@)) is None,
        },
{
    let ghost all = values_view(items@);
    let mut out: Vec<String> = Vec::new();
    let mut i: usize = 0;
    while i < items.len()
        invariant
            i <= items.len(),
            out.len() == i,
            all == values_view(items@),
            forall|k: int| 0 <= k < i ==> as_text(#[trigger] all[k]) == Some(out[k]@),
        decreases items.len() - i,
    {
        match text_of(&items[i]) {
            Some(s) => {
                out.push(s);
            },
            None => {
                assert(as_text(all[i as int]) is None);
                return None;
            },
        }
        i += 1;
    }
    assert(all_texts(all) is Some);
    assert(views(out@) =~= all_texts(all)->0);
    Some(out)
}

fn texts_of(value: &MetaValue) -> (r: Option<Vec<String>>)
    ensures
        match r {
            Some(v) => as_texts(value.view()) == Some(views(v@)),
            None => as_texts(value.view()) is None,
        },
{
    match value {
        MetaValue::MetaList(items) => texts_in(items),
        _ => None,
    }
}

fn day_of(value: &MetaValue) -> (r: Option<Date>)
    ensures
        match r {
            Some(d) => as_day(value.view()) == Some(d@),
            None => as_day(value.view()) is None,
        },
{
    match value {
        MetaValue::MetaString(s) => Date::parse(s.as_str()),
        _ => None,
    }
}

fn post_type_of(value: &MetaValue) -> (r: Option<PostType>)
    ensures
        r == as_post_type(value.view()),
{
    match value {
        MetaValue::MetaString(s) => PostType::from_name(s.as_str()),
        _ => None,
    }
}

fn toc_entry_of(value: &MetaValue) -> (r: Option<Toc>)
    ensures
        match r {
            Some(t) => as_toc_entry(value.view()) == Some(t.view()),
            None => as_toc_entry(value.view()) is None,
        },
    decreases value,
{
    match value {
        MetaValue::MetaMap(entries) => {
            if entries.len() != 1 {
                return None;
            }
            let ghost seen = entries_view(entries@);
            assert(seen[0] == (entries[0].0@, entries[0].1.view()));
            if same_text(entries[0].0.as_str(), "Text") {
                match text_of(&entries[0].1) {
                    Some(text) => Some(Toc::Text(text)),
                    None => None,
                }
            } else if same_text(entries[0].0.as_str(), "Heading") {
                match &entries[0].1 {
                    MetaValue::MetaMap(fields) => {
                        let ghost shown = entries_view(fields@);
                        assert(entry_keys(shown) =~= keys_of(fields@));
                        let label = match meta_get(fields, "label") {
                            Some(v) => text_of(v),
                            None => None,
                        };
                        let anchor = match meta_get(fields, "anchor") {
                            Some(v) => text_of(v),
                            None => None,
                        };
                        let below = match position(fields, "subheadings") {
                            Some(i) => {
                                assert(shown[i as int].1 == fields[i as int].1.view());
                                toc_of(&fields[i].1)
                            },
                            None => None,
                        };
                        match (label, anchor, below) {
                            (Some(label), Some(anchor), Some(subheadings)) => Some(
                                Toc::Heading { label, anchor, subheadings },
                            ),
                            _ => None,
                        }
                    },
                    _ => None,
                }
            } else {
                None
            }
        },
        _ => None,
    }
}

fn toc_of(value: &MetaValue) -> (r: Option<Vec<Toc>>)
    ensures
        match r {
            Some(t) => as_toc(value.view()) == Some(tocs_view(t@)),
            None => as_toc(value.view()) is None,
        },
    decreases value,
{
    match value {
        MetaValue::MetaList(items) => toc_entries_in(items),
        _ => None,
    }
}

fn toc_entries_in(items: &Vec<MetaValue>) -> (r: Option<Vec<Toc>>)
    ensures
        match r {
            Some(t) => all_toc_entries(values_view(items@)) == Some(tocs_view(t@)),
            None => all_toc_entries(values_view(items@)) is None,
        },
    decreases items,
{
    let ghost all = values_view(items@);
    let mut out: Vec<Toc> = Vec::new();
    let mut i: usize = 0;
    assert(all.take(0) =~= Seq::empty());
    assert(tocs_view(out@) =~= Seq::empty());
    while i < items.len()
        invariant
            i <= items.len(),
            all == values_view(items@),
            all_toc_entries(all.take(i as int)) == Some(tocs_view(out@)),
        decreases items.len() - i,
    {
        proof {
            assert(all.take(i + 1).drop_last() =~= all.take(i as int));
            assert(all.take(i + 1).last() == items[i as int].view());
        }
        match toc_entry_of(&items[i]) {
            Some(entry) => {
                let ghost before = tocs_view(out@);
                out.push(entry);
                assert(tocs_view(out@) =~= before.push(entry.view()));
            },
            None => {
                proof {
                    lemma_toc_entries_fail(all, i as int + 1);
                }
                return None;
            },
        }
        i += 1;
    }
    assert(all.take(i as int) =~= all);
    Some(out)
}

/// Where the first values are not all entries of a table of contents, the
/// values are not.
proof fn lemma_toc_entries_fail(values: Seq<MetaValueView>, n: int)
    requires
        0 <= n <= values.len(),
        all_toc_entries(values.take(n)) is None,
    ensures
        all_toc_entries(values) is None,
    decreases values.len() - n,
{
    if n == values.len() {
        assert(values.take(n) =~= values);
    } else {
        assert(values.take(n + 1).drop_last() =~= values.take(n));
        lemma_toc_entries_fail(values, n + 1);
    }
}

fn is_field(key: &str) -> (r: bool)
    ensures
        r == is_field_key(key@),
{
    let r = same_text(key, "title") || same_text(key, "post_type") || same_text(key, "blurb")
        || same_text(key, "tags") || same_text(key, "template") || same_text(key, "toc")
        || same_text(key, "exclude_from_rss") || same_text(key, "hidden") || same_text(
        key,
        "updated",
    ) || same_text(key, "created") || same_text(key, "ready") || same_text(key, "always_rerender")
        || same_text(key, "mentioners") || same_text(key, "mentions");
    proof {
        if r {
            let f = if key@ == "title"@ {
                Field::Title
            } else if key@ == "post_type"@ {
                Field::PostType
            } else if key@ == "blurb"@ {
                Field::Blurb
            } else if key@ == "tags"@ {
                Field::Tags
            } else if key@ == "template"@ {
                Field::Template
            } else if key@ == "toc"@ {
                Field::Toc
            } else if key@ == "exclude_from_rss"@ {
                Field::ExcludeFromRss
            } else if key@ == "hidden"@ {
                Field::Hidden
            } else if key@ == "updated"@ {
                Field::Updated
            } else if key@ == "created"@ {
                Field::Created
            } else if key@ == "ready"@ {
                Field::Ready
            } else if key@ == "always_rerender"@ {
                Field::AlwaysRerender
            } else if key@ == "mentioners"@ {
                Field::Mentioners
            } else {
                Field::Mentions
            };
            assert(f.key() == key@);
        } else {
            assert forall|f: Field| f.key() != key@ by {
                match f {
                    _ => {},
                }
            }
        }
    }
    r
}

fn extras_of(meta: &Vec<(String, MetaValue)>) -> (r: Vec<(String, MetaValue)>)
    ensures
        entries_view(r@) == extras(entries_view(meta@)),
{
    let ghost all = entries_view(meta@);
    let mut out: Vec<(String, MetaValue)> = Vec::new();
    let mut i: usize = 0;
    assert(all.take(0) =~= Seq::empty());
    assert(entries_view(out@) =~= Seq::empty());
    while i < meta.len()
        invariant
            i <= meta.len(),
            all == entries_view(meta@),
            entries_view(out@) == extras(all.take(i as int)),
        decreases meta.len() - i,
    {
        proof {
            assert(all.take(i + 1).drop_last() =~= all.take(i as int));
            assert(all.take(i + 1).last() == all[i as int]);
        }
        if !is_field(meta[i].0.as_str()) {
            let ghost before = entries_view(out@);
            out.push((meta[i].0.clone(), meta[i].1.duplicate()));
            assert(entries_view(out@) =~= before.push(all[i as int]));
        }
        i += 1;
    }
    assert(all.take(i as int) =~= all);
    out
}

fn text_field(meta: &Vec<(String, MetaValue)>, field: Field) -> (r: Result<
    Option<String>,
    MetaError,
>)
    ensures
        match r {
            Ok(Some(t)) => read_text(entries_view(meta@), field) == Ok::<
                Option<Seq<char>>,
                MetaError,
            >(Some(t@)),
            Ok(None) => read_text(entries_view(meta@), field) == Ok::<Option<Seq<char>>, MetaError>(
                None,
            ),
            Err(e) => read_text(entries_view(meta@), field) == Err::<Option<Seq<char>>, MetaError>(
                e,
            ),
        },
{
    match meta_get(meta, field.as_str()) {
        None => Ok(None),
        Some(v) => match text_of(v) {
            Some(t) => Ok(Some(t)),
            None => Err(MetaError::Invalid(field)),
        },
    }
}

fn flag_field(meta: &Vec<(String, MetaValue)>, field: Field) -> (r: Result<Option<bool>, MetaError>)
    ensures
        r == read_flag(entries_view(meta@), field),
{
    match meta_get(meta, field.as_str()) {
        None => Ok(None),
        Some(v) => match flag_of(v) {
            Some(t) => Ok(Some(t)),
            None => Err(MetaError::Invalid(field)),
        },
    }
}

fn texts_field(meta: &Vec<(String, MetaValue)>, field: Field) -> (r: Result<
    Option<Vec<String>>,
    MetaError,
>)
    ensures
        match r {
            Ok(Some(t)) => read_texts(entries_view(meta@), field) == Ok::<
                Option<Seq<Seq<char>>>,
                MetaError,
            >(Some(views(t@))),
            Ok(None) => read_texts(entries_view(meta@), field) == Ok::<
                Option<Seq<Seq<char>>>,
                MetaError,
            >(None),
            Err(e) => read_texts(entries_view(meta@), field) == Err::<
                Option<Seq<Seq<char>>>,
                MetaError,
            >(e),
        },
{
    match meta_get(meta, field.as_str()) {
        None => Ok(None),
        Some(v) => match texts_of(v) {
            Some(t) => Ok(Some(t)),
            None => Err(MetaError::Invalid(field)),
        },
    }
}

fn day_field(meta: &Vec<(String, MetaValue)>, field: Field) -> (r: Result<Date, MetaError>)
    ensures
        match r {
            Ok(d) => read_day(entries_view(meta@), field) == Ok::<Option<Ymd>, MetaError>(
                Some(d@),
            ),
            Err(e) => match read_day(entries_view(meta@), field) {
                Ok(None) => e == MetaError::Missing(field),
                Ok(Some(_)) => false,
                Err(x) => e == x,
            },
        },
{
    match meta_get(meta, field.as_str()) {
        None => Err(MetaError::Missing(field)),
        Some(v) => match day_of(v) {
            Some(t) => Ok(t),
            None => Err(MetaError::Invalid(field)),
        },
    }
}

fn post_type_field(meta: &Vec<(String, MetaValue)>) -> (r: Result<Option<PostType>, MetaError>)
    ensures
        r == read_post_type(entries_view(meta@)),
{
    match meta_get(meta, Field::PostType.as_str()) {
        None => Ok(None),
        Some(v) => match post_type_of(v) {
            Some(t) => Ok(Some(t)),
            None => Err(MetaError::Invalid(Field::PostType)),
        },
    }
}

fn toc_field(meta: &Vec<(String, MetaValue)>) -> (r: Result<Option<Vec<Toc>>, MetaError>)
    ensures
        match r {
            Ok(Some(t)) => read_toc(entries_view(meta@)) == Ok::<Option<Seq<TocView>>, MetaError>(
                Some(tocs_view(t@)),
            ),
            Ok(None) => read_toc(entries_view(meta@)) == Ok::<Option<Seq<TocView>>, MetaError>(
                None,
            ),
            Err(e) => read_toc(entries_view(meta@)) == Err::<Option<Seq<TocView>>, MetaError>(e),
        },
{
    match meta_get(meta, Field::Toc.as_str()) {
        None => Ok(None),
        Some(v) => match toc_of(v) {
            Some(t) => Ok(Some(t)),
            None => Err(MetaError::Invalid(Field::Toc)),
        },
    }
}

fn text_or(read: Option<String>, default: &str) -> (r: String)
    ensures
        r@ == match read {
            Some(t) => t@,
            None => default@,
        },
{
    match read {
        Some(t) => t,
        None => default.to_owned(),
    }
}

fn texts_or_none(read: Option<Vec<String>>) -> (r: Vec<String>)
    ensures
        views(r@) == match read {
            Some(t) => views(t@),
            None => Seq::empty(),
        },
{
    match read {
        Some(t) => t,
        None => {
            let none: Vec<String> = Vec::new();
            assert(views(none@) =~= Seq::empty());
            none
        },
    }
}

fn flag_or_false(read: Option<bool>) -> (r: bool)
    ensures
        r == match read {
            Some(t) => t,
            None => false,
        },
{
    match read {
        Some(t) => t,
        None => false,
    }
}

struct HeadParts {
    title: String,
    post_type: PostType,
    blurb: String,
    tags: Vec<String>,
    template: String,
    toc: Vec<Toc>,
}

impl View for HeadParts {
    type V = Head;

    closed spec fn view(&self) -> Head {
        Head {
            title: self.title@,
            post_type: self.post_type,
            blurb: self.blurb@,
            tags: views(self.tags@),
            template: self.template@,
            toc: tocs_view(self.toc@),
        }
    }
}

struct StatusParts {
    exclude_from_rss: bool,
    hidden: bool,
    updated: Date,
    created: Date,
    ready: bool,
    always_rerender: bool,
}

impl View for StatusParts {
    type V = Status;

    closed spec fn view(&self) -> Status {
        Status {
            exclude_from_rss: self.exclude_from_rss,
            hidden: self.hidden,
            updated: self.updated@,
            created: self.created@,
            ready: self.ready,
            always_rerender: self.always_rerender,
        }
    }
}

struct TiesParts {
    mentioners: Vec<String>,
    mentions: Vec<String>,
}

impl View for TiesParts {
    type V = Ties;

    closed spec fn view(&self) -> Ties {
        Ties { mentioners: views(self.mentioners@), mentions: views(self.mentions@) }
    }
}

fn read_head(meta: &Vec<(String, MetaValue)>) -> (r: Result<HeadParts, MetaError>)
    ensures
        match r {
            Ok(h) => head_of(entries_view(meta@)) == Ok::<Head, MetaError>(h@),
            Err(e) => head_of(entries_view(meta@)) == Err::<Head, MetaError>(e),
        },
{
    let title = match text_field(meta, Field::Title) {
        Ok(t) => text_or(t, DEFAULT_TITLE),
        Err(e) => {
            return Err(e);
        },
    };
    let post_type = match post_type_field(meta) {
        Ok(Some(t)) => t,
        Ok(None) => PostType::Note,
        Err(e) => {
            return Err(e);
        },
    };
    let blurb = match text_field(meta, Field::Blurb) {
        Ok(Some(t)) => t,
        Ok(None) => String::new(),
        Err(e) => {
            return Err(e);
        },
    };
    let tags = match texts_field(meta, Field::Tags) {
        Ok(t) => texts_or_none(t),
        Err(e) => {
            return Err(e);
        },
    };
    let template = match text_field(meta, Field::Template) {
        Ok(t) => text_or(t, DEFAULT_TEMPLATE),
        Err(e) => {
            return Err(e);
        },
    };
    let toc = match toc_field(meta) {
        Ok(Some(t)) => t,
        Ok(None) => {
            let none: Vec<Toc> = Vec::new();
            assert(tocs_view(none@) =~= Seq::empty());
            none
        },
        Err(e) => {
            return Err(e);
        },
    };
    Ok(HeadParts { title, post_type, blurb, tags, template, toc })
}

fn read_status(meta: &Vec<(String, MetaValue)>) -> (r: Result<StatusParts, MetaError>)
    ensures
        match r {
            Ok(s) => status_of(entries_view(meta@)) == Ok::<Status, MetaError>(s@),
            Err(e) => status_of(entries_view(meta@)) == Err::<Status, MetaError>(e),
        },
{
    let exclude_from_rss = match flag_field(meta, Field::ExcludeFromRss) {
        Ok(t) => flag_or_false(t),
        Err(e) => {
            return Err(e);
        },
    };
    let hidden = match flag_field(meta, Field::Hidden) {
        Ok(t) => flag_or_false(t),
        Err(e) => {
            return Err(e);
        },
    };
    let updated = match day_field(meta, Field::Updated) {
        Ok(t) => t,
        Err(e) => {
            return Err(e);
        },
    };
    let created = match day_field(meta, Field::Created) {
        Ok(t) => t,
        Err(e) => {
            return Err(e);
        },
    };
    let ready = match flag_field(meta, Field::Ready) {
        Ok(t) => flag_or_false(t),
        Err(e) => {
            return Err(e);
        },
    };
    let always_rerender = match flag_field(meta, Field::AlwaysRerender) {
        Ok(t) => flag_or_false(t),
        Err(e) => {
            return Err(e);
        },
    };
    Ok(StatusParts { exclude_from_rss, hidden, updated, created, ready, always_rerender })
}

fn read_ties(meta: &Vec<(String, MetaValue)>) -> (r: Result<TiesParts, MetaError>)
    ensures
        match r {
            Ok(t) => ties_of(entries_view(meta@)) == Ok::<Ties, MetaError>(t@),
            Err(e) => ties_of(entries_view(meta@)) == Err::<Ties, MetaError>(e),
        },
{
    let mentioners = match texts_field(meta, Field::Mentioners) {
        Ok(t) => texts_or_none(t),
        Err(e) => {
            return Err(e);
        },
    };
    let mentions = match texts_field(meta, Field::Mentions) {
        Ok(t) => texts_or_none(t),
        Err(e) => {
            return Err(e);
        },
    };
    Ok(TiesParts { mentioners, mentions })
}

impl ArticleMeta {
    /// Reads the metadata of a document from its front matter.
    pub fn try_from(tree: &Tree) -> (r: Result<ArticleMeta, MetaError>)
        ensures
            match r {
                Ok(m) => metadata_of(tree@.meta) == Ok::<ArticleMetaView, MetaError>(m@),
                Err(e) => metadata_of(tree@.meta) == Err::<ArticleMetaView, MetaError>(e),
            },
    {
        let head = match read_head(&tree.meta) {
            Ok(h) => h,
            Err(e) => {
                return Err(e);
            },
        };
        let status = match read_status(&tree.meta) {
            Ok(s) => s,
            Err(e) => {
                return Err(e);
            },
        };
        let ties = match read_ties(&tree.meta) {
            Ok(t) => t,
            Err(e) => {
                return Err(e);
            },
        };
        Ok(
            ArticleMeta {
                title: head.title,
                post_type: head.post_type,
                blurb: head.blurb,
                tags: head.tags,
                template: head.template,
                toc: head.toc,
                exclude_from_rss: status.exclude_from_rss,
                hidden: status.hidden,
                updated: status.updated,
                created: status.created,
                ready: status.ready,
                always_rerender: status.always_rerender,
                extra: extras_of(&tree.meta),
                mentioners: ties.mentioners,
                mentions: ties.mentions,
            },
        )
    }
}

} // verus!
