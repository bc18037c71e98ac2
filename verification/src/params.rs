//! A query as a flat list of named parameters, as it stands in the query part
//! of an address, and back.

use crate::date::{parsed_date, Bound, Date, Ymd};
use crate::meta::PostType;
use crate::query::{Search, SearchView, SortType};
use crate::text::{
    decimal_string, digits, pair_views, parse_u32, parse_u32_spec, same_text, views,
};
use vstd::prelude::*;
use vstd::string::*;

verus! {

/// A list of parameters: names and values.
pub type Params = Seq<(Seq<char>, Seq<char>)>;

/// One parameter.
pub open spec fn one(name: Seq<char>, value: Seq<char>) -> Params {
    seq![(name, value)]
}

/// One parameter where there is a value, none where there is not.
pub open spec fn optional(name: Seq<char>, value: Option<Seq<char>>) -> Params {
    match value {
        Some(v) => seq![(name, v)],
        None => Seq::empty(),
    }
}

/// One parameter of the same name for each value.
pub open spec fn many(name: Seq<char>, values: Seq<Seq<char>>) -> Params {
    Seq::new(values.len(), |i: int| (name, values[i]))
}

/// The values of the parameters called `name`, in their order.
pub open spec fn values_for(params: Params, name: Seq<char>) -> Seq<Seq<char>>
    decreases params.len(),
{
    if params.len() == 0 {
        Seq::empty()
    } else if params.last().0 == name {
        values_for(params.drop_last(), name).push(params.last().1)
    } else {
        values_for(params.drop_last(), name)
    }
}

/// The value of the first parameter called `name`.
pub open spec fn first_value(params: Params, name: Seq<char>) -> Option<Seq<char>> {
    if values_for(params, name).len() > 0 {
        Some(values_for(params, name)[0])
    } else {
        None
    }
}

/// The first day of an interval that begins at `bound`, if it begins at all:
/// the day of an included end, and the day after an excluded one. After the
/// last day that a date can be there is none, and that day stands.
pub open spec fn first_day(bound: Bound<Ymd>) -> Option<Ymd> {
    match bound {
        Bound::Included(d) => Some(d),
        Bound::Excluded(d) => Some(
            if d.is_last() {
                d
            } else {
                d.next()
            },
        ),
        Bound::Unbounded => None,
    }
}

/// The last day of an interval that ends at `bound`, if it ends at all: the
/// day of an included end, and the day before an excluded one. Before the
/// first day that a date can be there is none, and that day stands.
pub open spec fn last_day(bound: Bound<Ymd>) -> Option<Ymd> {
    match bound {
        Bound::Included(d) => Some(d),
        Bound::Excluded(d) => Some(
            if d.is_first() {
                d
            } else {
                d.previous()
            },
        ),
        Bound::Unbounded => None,
    }
}

/// A day as text, if there is one.
pub open spec fn day_text(day: Option<Ymd>) -> Option<Seq<char>> {
    match day {
        Some(d) => Some(d.text()),
        None => None,
    }
}

/// A flag as text: `true` where it is set, nothing where it is not.
pub open spec fn flag_text(flag: bool) -> Option<Seq<char>> {
    if flag {
        Some("true"@)
    } else {
        None
    }
}

/// A text, unless it is empty.
pub open spec fn unless_empty(text: Seq<char>) -> Option<Seq<char>> {
    if text.len() > 0 {
        Some(text)
    } else {
        None
    }
}

/// The name of a post type, if there is one.
pub open spec fn type_text(t: Option<PostType>) -> Option<Seq<char>> {
    match t {
        Some(t) => Some(t.name()),
        None => None,
    }
}

/// A limit as a decimal numeral, if there is one.
pub open spec fn limit_text(limit: Option<u32>) -> Option<Seq<char>> {
    match limit {
        Some(n) => Some(digits(n as nat, 1)),
        None => None,
    }
}

/// The parameters that stand for a query: the sort order always, every other
/// field where it differs from its default. An interval is written by its
/// first and its last day.
pub open spec fn params_of(q: SearchView) -> Params {
    one("sort_type"@, q.sort_type.name()) + optional("search_path"@, unless_empty(q.search_path))
        + many("exclude_path"@, q.exclude_paths) + many("tag"@, q.tags) + optional(
        "created_after"@,
        day_text(first_day(q.created.0)),
    ) + optional("created_before"@, day_text(last_day(q.created.1))) + optional(
        "updated_after"@,
        day_text(first_day(q.updated.0)),
    ) + optional("updated_before"@, day_text(last_day(q.updated.1))) + optional(
        "title_filter"@,
        q.title_filter,
    ) + optional("post_type"@, type_text(q.post_type)) + optional("limit"@, limit_text(q.limit))
        + optional("ignore_hidden"@, flag_text(q.ignore_hidden))
}

/// A day, if there is one, is a day of the calendar and is read back from its
/// own text.
pub open spec fn reads_back(day: Option<Ymd>) -> bool {
    day matches Some(d) ==> d.valid() && parsed_date(d.text()) == Some(d)
}

/// An end of an interval as an included one.
pub open spec fn included(day: Option<Ymd>) -> Bound<Ymd> {
    match day {
        Some(d) => Bound::Included(d),
        None => Bound::Unbounded,
    }
}

/// Whether an end of an interval names a day of the calendar.
pub open spec fn bound_valid(bound: Bound<Ymd>) -> bool {
    match bound {
        Bound::Included(d) => d.valid(),
        Bound::Excluded(d) => d.valid(),
        Bound::Unbounded => true,
    }
}

impl SearchView {
    /// The query with each interval given by its first and its last day.
    pub open spec fn inclusive(self) -> SearchView {
        SearchView {
            created: (included(first_day(self.created.0)), included(last_day(self.created.1))),
            updated: (included(first_day(self.updated.0)), included(last_day(self.updated.1))),
            ..self
        }
    }

    /// Each day that the query names is a day of the calendar.
    pub open spec fn days_valid(self) -> bool {
        &&& bound_valid(self.created.0)
        &&& bound_valid(self.created.1)
        &&& bound_valid(self.updated.0)
        &&& bound_valid(self.updated.1)
    }

    /// No interval of the query begins after the last day that a date can be
    /// or ends before the first.
    pub open spec fn within_calendar(self) -> bool {
        &&& !(self.created.0 matches Bound::Excluded(d) && d.is_last())
        &&& !(self.updated.0 matches Bound::Excluded(d) && d.is_last())
        &&& !(self.created.1 matches Bound::Excluded(d) && d.is_first())
        &&& !(self.updated.1 matches Bound::Excluded(d) && d.is_first())
    }

    /// Each day that the parameters of the query name is read back from its
    /// own text.
    pub open spec fn days_read_back(self) -> bool {
        &&& reads_back(first_day(self.created.0))
        &&& reads_back(last_day(self.created.1))
        &&& reads_back(first_day(self.updated.0))
        &&& reads_back(last_day(self.updated.1))
    }
}

/// Why a list of parameters stands for no query.
#[derive(Clone, Copy, Debug, PartialEq, Eq, Structural)]
pub enum QueryError {
    /// `created_after` is no date.
    CreatedAfter,
    /// `created_before` is no date.
    CreatedBefore,
    /// `updated_after` is no date.
    UpdatedAfter,
    /// `updated_before` is no date.
    UpdatedBefore,
    /// `sort_type` names no order.
    SortType,
    /// `post_type` names no post type.
    PostType,
    /// `limit` is no number.
    Limit,
    /// `ignore_hidden` is neither `true` nor `false`.
    IgnoreHidden,
}

/// The end of an interval that a parameter stands for: none where the parameter
/// is absent, the day that it names where it names one.
pub open spec fn bound_of(value: Option<Seq<char>>) -> Option<Bound<Ymd>> {
    match value {
        None => Some(Bound::Unbounded),
        Some(text) => match parsed_date(text) {
            Some(day) => Some(Bound::Included(day)),
            None => None,
        },
    }
}

/// The sort order that a parameter stands for: newest first where it is absent.
pub open spec fn sort_of(value: Option<Seq<char>>) -> Option<SortType> {
    match value {
        None => Some(SortType::CreateDesc),
        Some(text) => SortType::named(text),
    }
}

/// The post type that a parameter stands for.
pub open spec fn type_of(value: Option<Seq<char>>) -> Option<Option<PostType>> {
    match value {
        None => Some(None),
        Some(text) => match PostType::named(text) {
            Some(t) => Some(Some(t)),
            None => None,
        },
    }
}

/// The limit that a parameter stands for.
pub open spec fn limit_of(value: Option<Seq<char>>) -> Option<Option<u32>> {
    match value {
        None => Some(None),
        Some(text) => match parse_u32_spec(text) {
            Some(n) => Some(Some(n)),
            None => None,
        },
    }
}

/// The flag that a parameter stands for: not set where it is absent.
pub open spec fn flag_of(value: Option<Seq<char>>) -> Option<bool> {
    match value {
        None => Some(false),
        Some(text) => if text == "true"@ {
            Some(true)
        } else if text == "false"@ {
            Some(false)
        } else {
            None
        },
    }
}

/// The query that a list of parameters stands for. Of a name that is given
/// twice the first value counts, but for `exclude_path` and `tag`, of which all
/// count; absent parameters leave a field at its default, and names that no
/// field has are passed over. The first parameter that cannot be read decides
/// the error.
pub open spec fn query_of(params: Params) -> Result<SearchView, QueryError> {
    let created_after = bound_of(first_value(params, "created_after"@));
    let created_before = bound_of(first_value(params, "created_before"@));
    let updated_after = bound_of(first_value(params, "updated_after"@));
    let updated_before = bound_of(first_value(params, "updated_before"@));
    let sort_type = sort_of(first_value(params, "sort_type"@));
    let post_type = type_of(first_value(params, "post_type"@));
    let limit = limit_of(first_value(params, "limit"@));
    let ignore_hidden = flag_of(first_value(params, "ignore_hidden"@));
    if created_after is None {
        Err(QueryError::CreatedAfter)
    } else if created_before is None {
        Err(QueryError::CreatedBefore)
    } else if updated_after is None {
        Err(QueryError::UpdatedAfter)
    } else if updated_before is None {
        Err(QueryError::UpdatedBefore)
    } else if sort_type is None {
        Err(QueryError::SortType)
    } else if post_type is None {
        Err(QueryError::PostType)
    } else if limit is None {
        Err(QueryError::Limit)
    } else if ignore_hidden is None {
        Err(QueryError::IgnoreHidden)
    } else {
        Ok(
            SearchView {
                search_path: match first_value(params, "search_path"@) {
                    Some(p) => p,
                    None => Seq::empty(),
                },
                exclude_paths: values_for(params, "exclude_path"@),
                tags: values_for(params, "tag"@),
                post_type: post_type->0,
                created: (created_after->0, created_before->0),
                updated: (updated_after->0, updated_before->0),
                title_filter: first_value(params, "title_filter"@),
                sort_type: sort_type->0,
                limit: limit->0,
                ignore_hidden: ignore_hidden->0,
            },
        )
    }
}

fn push_param(out: &mut Vec<(String, String)>, name: &str, value: String)
    ensures
        pair_views(final(out)@) == pair_views(old(out)@) + one(name@, value@),
{
    out.push((name.to_owned(), value));
    assert(pair_views(out@) =~= pair_views(old(out)@) + one(name@, value@));
}

fn push_many(out: &mut Vec<(String, String)>, name: &str, values: &Vec<String>)
    ensures
        pair_views(final(out)@) == pair_views(old(out)@) + many(name@, views(values@)),
{
    let mut i: usize = 0;
    assert(pair_views(out@) =~= pair_views(old(out)@) + many(name@, views(values@).take(0)));
    while i < values.len()
        invariant
            i <= values.len(),
            pair_views(out@) == pair_views(old(out)@) + many(name@, views(values@).take(i as int)),
        decreases values.len() - i,
    {
        let ghost before = pair_views(out@);
        push_param(out, name, values[i].clone());
        assert(pair_views(out@) =~= pair_views(old(out)@) + many(
            name@,
            views(values@).take(i + 1),
        ));
        i += 1;
    }
    assert(views(values@).take(i as int) =~= views(values@));
}

fn push_day(out: &mut Vec<(String, String)>, name: &str, day: Option<Date>)
    ensures
        pair_views(final(out)@) == pair_views(old(out)@) + optional(
            name@,
            day_text(option_day(day)),
        ),
        reads_back(option_day(day)),
{
    match day {
        Some(d) => push_param(out, name, d.to_text()),
        None => {
            assert(pair_views(out@) =~= pair_views(old(out)@) + Seq::empty());
        },
    }
}

/// The view of an optional date.
pub open spec fn option_day(day: Option<Date>) -> Option<Ymd> {
    match day {
        Some(d) => Some(d@),
        None => None,
    }
}

fn first_day_of(bound: &Bound<Date>) -> (r: Option<Date>)
    ensures
        option_day(r) == first_day(crate::date::bound_view(*bound)),
{
    match bound {
        Bound::Included(d) => Some(*d),
        Bound::Excluded(d) => match d.succ() {
            Some(next) => Some(next),
            None => Some(*d),
        },
        Bound::Unbounded => None,
    }
}

fn last_day_of(bound: &Bound<Date>) -> (r: Option<Date>)
    ensures
        option_day(r) == last_day(crate::date::bound_view(*bound)),
{
    match bound {
        Bound::Included(d) => Some(*d),
        Bound::Excluded(d) => match d.pred() {
            Some(previous) => Some(previous),
            None => Some(*d),
        },
        Bound::Unbounded => None,
    }
}

/// The parameters that stand for `query`. Read back, they give the query
/// again, with each interval given by its first and its last day.
pub fn to_params(query: &Search) -> (r: Vec<(String, String)>)
    ensures
        pair_views(r@) == params_of(query@),
        query_of(pair_views(r@)) == Ok::<SearchView, QueryError>(query@.inclusive()),
{
    let mut out: Vec<(String, String)> = Vec::new();
    assert(pair_views(out@) =~= Seq::empty());
    push_param(&mut out, "sort_type", query.sort_type.as_str().to_owned());
    assert(pair_views(out@) =~= one("sort_type"@, query@.sort_type.name()));
    let ghost p1 = pair_views(out@);
    if query.search_path.as_str().unicode_len() > 0 {
        push_param(&mut out, "search_path", query.search_path.clone());
    }
    assert(pair_views(out@) =~= p1 + optional("search_path"@, unless_empty(query@.search_path)));
    push_many(&mut out, "exclude_path", &query.exclude_paths);
    push_many(&mut out, "tag", &query.tags);
    push_day(&mut out, "created_after", first_day_of(&query.created.0));
    push_day(&mut out, "created_before", last_day_of(&query.created.1));
    push_day(&mut out, "updated_after", first_day_of(&query.updated.0));
    push_day(&mut out, "updated_before", last_day_of(&query.updated.1));
    let ghost p2 = pair_views(out@);
    match &query.title_filter {
        Some(t) => push_param(&mut out, "title_filter", t.clone()),
        None => {},
    }
    assert(pair_views(out@) =~= p2 + optional("title_filter"@, query@.title_filter));
    let ghost p3 = pair_views(out@);
    match &query.post_type {
        Some(t) => push_param(&mut out, "post_type", t.as_str().to_owned()),
        None => {},
    }
    assert(pair_views(out@) =~= p3 + optional("post_type"@, type_text(query@.post_type)));
    let ghost p4 = pair_views(out@);
    match query.limit {
        Some(n) => push_param(&mut out, "limit", decimal_string(n)),
        None => {},
    }
    assert(pair_views(out@) =~= p4 + optional("limit"@, limit_text(query@.limit)));
    let ghost p5 = pair_views(out@);
    if query.ignore_hidden {
        push_param(&mut out, "ignore_hidden", "true".to_owned());
    }
    assert(pair_views(out@) =~= p5 + optional("ignore_hidden"@, flag_text(query@.ignore_hidden)));
    proof {
        lemma_params_round_trip(query@);
    }
    out
}

/// The values of the parameters called `name`, in their order.
pub fn param_values(params: &Vec<(String, String)>, name: &str) -> (r: Vec<String>)
    ensures
        views(r@) == values_for(pair_views(params@), name@),
{
    let wanted = name.to_owned();
    let ghost all = pair_views(params@);
    let mut out: Vec<String> = Vec::new();
    let mut i: usize = 0;
    assert(all.take(0) =~= Seq::empty());
    assert(views(out@) =~= Seq::empty());
    while i < params.len()
        invariant
            i <= params.len(),
            wanted@ == name@,
            all == pair_views(params@),
            views(out@) == values_for(all.take(i as int), name@),
        decreases params.len() - i,
    {
        proof {
            assert(all.take(i + 1).drop_last() =~= all.take(i as int));
            assert(all.take(i + 1).last() == all[i as int]);
        }
        if params[i].0 == wanted {
            let ghost before = views(out@);
            out.push(params[i].1.clone());
            assert(views(out@) =~= before.push(all[i as int].1));
        }
        i += 1;
    }
    assert(all.take(i as int) =~= all);
    out
}

/// What stands ahead of a place in a list adds nothing to the values of a name
/// that it does not hold.
proof fn lemma_values_of_prefix(params: Params, name: Seq<char>, n: int)
    requires
        0 <= n <= params.len(),
        forall|k: int| 0 <= k < n ==> params[k].0 != name,
    ensures
        values_for(params, name) == values_for(params.skip(n), name),
    decreases params.len(),
{
    if n == params.len() {
        assert(params.skip(n) =~= Seq::empty());
        if n > 0 {
            lemma_values_of_prefix(params.drop_last(), name, n - 1);
            assert(params.drop_last().skip(n - 1) =~= Seq::empty());
        }
    } else {
        assert(params.skip(n).drop_last() =~= params.drop_last().skip(n));
        assert(params.skip(n).last() == params.last());
        lemma_values_of_prefix(params.drop_last(), name, n);
    }
}

/// The values of a name begin with the value of the first parameter of that name.
proof fn lemma_values_head(params: Params, name: Seq<char>)
    requires
        params.len() > 0,
        params[0].0 == name,
    ensures
        values_for(params, name).len() > 0,
        values_for(params, name)[0] == params[0].1,
    decreases params.len(),
{
    if params.len() > 1 {
        lemma_values_head(params.drop_last(), name);
        assert(params.drop_last()[0] == params[0]);
    } else {
        assert(params.drop_last() =~= Seq::empty());
        assert(values_for(params.drop_last(), name) =~= Seq::empty());
    }
}

/// The value of the first parameter called `name`.
pub fn param_value<'a>(params: &'a Vec<(String, String)>, name: &str) -> (r: Option<&'a String>)
    ensures
        match r {
            Some(v) => first_value(pair_views(params@), name@) == Some(v@),
            None => first_value(pair_views(params@), name@) is None,
        },
{
    let wanted = name.to_owned();
    let ghost all = pair_views(params@);
    let mut i: usize = 0;
    while i < params.len()
        invariant
            i <= params.len(),
            wanted@ == name@,
            all == pair_views(params@),
            forall|k: int| 0 <= k < i ==> all[k].0 != name@,
        decreases params.len() - i,
    {
        if params[i].0 == wanted {
            proof {
                lemma_values_of_prefix(all, name@, i as int);
                lemma_values_head(all.skip(i as int), name@);
            }
            return Some(&params[i].1);
        }
        i += 1;
    }
    proof {
        lemma_values_of_prefix(all, name@, i as int);
        assert(all.skip(i as int) =~= Seq::empty());
    }
    None
}

fn read_bound(value: Option<&String>) -> (r: Option<Bound<Date>>)
    ensures
        match r {
            Some(b) => bound_of(crate::query::option_view_ref(value)) == Some(
                crate::date::bound_view(b),
            ),
            None => bound_of(crate::query::option_view_ref(value)) is None,
        },
{
    match value {
        None => Some(Bound::Unbounded),
        Some(text) => match Date::parse(text.as_str()) {
            Some(day) => Some(Bound::Included(day)),
            None => None,
        },
    }
}

/// The query that a list of parameters stands for.
pub fn from_params(params: &Vec<(String, String)>) -> (r: Result<Search, QueryError>)
    ensures
        match r {
            Ok(q) => query_of(pair_views(params@)) == Ok::<SearchView, QueryError>(q@),
            Err(e) => query_of(pair_views(params@)) == Err::<SearchView, QueryError>(e),
        },
{
    let created_after = match read_bound(param_value(params, "created_after")) {
        Some(b) => b,
        None => {
            return Err(QueryError::CreatedAfter);
        },
    };
    let created_before = match read_bound(param_value(params, "created_before")) {
        Some(b) => b,
        None => {
            return Err(QueryError::CreatedBefore);
        },
    };
    let updated_after = match read_bound(param_value(params, "updated_after")) {
        Some(b) => b,
        None => {
            return Err(QueryError::UpdatedAfter);
        },
    };
    let updated_before = match read_bound(param_value(params, "updated_before")) {
        Some(b) => b,
        None => {
            return Err(QueryError::UpdatedBefore);
        },
    };
    let sort_type = match param_value(params, "sort_type") {
        None => SortType::CreateDesc,
        Some(text) => match SortType::from_name(text.as_str()) {
            Some(s) => s,
            None => {
                return Err(QueryError::SortType);
            },
        },
    };
    let post_type = match param_value(params, "post_type") {
        None => None,
        Some(text) => match PostType::from_name(text.as_str()) {
            Some(t) => Some(t),
            None => {
                return Err(QueryError::PostType);
            },
        },
    };
    let limit = match param_value(params, "limit") {
        None => None,
        Some(text) => match parse_u32(text.as_str()) {
            Some(n) => Some(n),
            None => {
                return Err(QueryError::Limit);
            },
        },
    };
    let ignore_hidden = match param_value(params, "ignore_hidden") {
        None => false,
        Some(text) => if same_text(text.as_str(), "true") {
            true
        } else if same_text(text.as_str(), "false") {
            false
        } else {
            return Err(QueryError::IgnoreHidden);
        },
    };
    let search_path = match param_value(params, "search_path") {
        Some(p) => p.clone(),
        None => String::new(),
    };
    let title_filter = match param_value(params, "title_filter") {
        Some(t) => Some(t.clone()),
        None => None,
    };
    Ok(
        Search {
            search_path,
            exclude_paths: param_values(params, "exclude_path"),
            tags: param_values(params, "tag"),
            post_type,
            created: (created_after, created_before),
            updated: (updated_after, updated_before),
            title_filter,
            sort_type,
            limit,
            ignore_hidden,
        },
    )
}

/// Why a field of a form holds no date.
#[derive(Clone, Copy, Debug, PartialEq, Eq, Structural)]
pub enum DateFieldError {
    /// The field is empty.
    Missing,
    /// The field holds text that is no date.
    Invalid,
}

/// A date in a field of a form.
#[derive(Clone, Copy, Debug, PartialEq, Eq)]
pub struct DateField(pub Date);

impl DateField {
    /// Reads the date in a field of a form.
    pub fn from_value(text: &str) -> (r: Result<DateField, DateFieldError>)
        ensures
            match r {
                Ok(d) => text@.len() > 0 && parsed_date(text@) == Some(d.0@),
                Err(DateFieldError::Missing) => text@.len() == 0,
                Err(DateFieldError::Invalid) => text@.len() > 0 && parsed_date(text@) is None,
            },
    {
        if text.unicode_len() == 0 {
            return Err(DateFieldError::Missing);
        }
        match Date::parse(text) {
            Some(d) => Ok(DateField(d)),
            None => Err(DateFieldError::Invalid),
        }
    }
}

/// A query as a form holds it.
#[derive(Debug, PartialEq, Eq)]
pub struct SearchForm {
    pub search_path: String,
    pub exclude_path: Vec<String>,
    pub tag: Vec<String>,
    pub created_after: Option<DateField>,
    pub created_before: Option<DateField>,
    pub updated_after: Option<DateField>,
    pub updated_before: Option<DateField>,
    pub title_filter: Option<String>,
    pub sort_type: SortType,
    pub post_type: Option<PostType>,
    pub limit: Option<u32>,
}

fn bound_of_field(field: Option<DateField>) -> (r: Bound<Date>)
    ensures
        r == field_end(field),
{
    match field {
        Some(d) => Bound::Included(d.0),
        None => Bound::Unbounded,
    }
}

/// The end of an interval that a field of a form stands for, as it is kept.
pub open spec fn field_end(field: Option<DateField>) -> Bound<Date> {
    match field {
        Some(d) => Bound::Included(d.0),
        None => Bound::Unbounded,
    }
}

impl From<SearchForm> for Search {
    /// The query that a form stands for. Hidden documents are not asked for.
    fn from(form: SearchForm) -> (r: Search) {
        Search {
            search_path: form.search_path,
            exclude_paths: form.exclude_path,
            tags: form.tag,
            post_type: form.post_type,
            created: (bound_of_field(form.created_after), bound_of_field(form.created_before)),
            updated: (bound_of_field(form.updated_after), bound_of_field(form.updated_before)),
            title_filter: form.title_filter,
            sort_type: form.sort_type,
            limit: form.limit,
            ignore_hidden: false,
        }
    }
}

impl vstd::std_specs::convert::FromSpecImpl<SearchForm> for Search {
    open spec fn obeys_from_spec() -> bool {
        true
    }

    open spec fn from_spec(form: SearchForm) -> Search {
        Search {
            search_path: form.search_path,
            exclude_paths: form.exclude_path,
            tags: form.tag,
            post_type: form.post_type,
            created: (field_end(form.created_after), field_end(form.created_before)),
            updated: (field_end(form.updated_after), field_end(form.updated_before)),
            title_filter: form.title_filter,
            sort_type: form.sort_type,
            limit: form.limit,
            ignore_hidden: false,
        }
    }
}

/// The query part that `Url::parse_with_params` of `url` writes for a list of
/// parameters.
pub uninterp spec fn urlencoded(pairs: Seq<(Seq<char>, Seq<char>)>) -> Seq<char>;

/// Calls `Url::parse_with_params` of `url` on the address `http:///search` and
/// the parameters, and takes the query part of the result with `Url::query`.
///
/// Believed of it: the address is accepted, and the query part is a function of
/// the parameters alone.
#[verifier::external_body]
fn url_query(pairs: &Vec<(String, String)>) -> (r: String)
    ensures
        r@ == urlencoded(pair_views(pairs@)),
{
    url::Url::parse_with_params("http:///search", pairs).unwrap().query().unwrap_or("").to_string()
}

/// The query part of an address that stands for `query`: its parameters, each
/// as `name=value`, escaped and joined as `url` does.
pub fn to_query(query: &Search) -> (r: String)
    ensures
        r@ == urlencoded(params_of(query@)),
{
    let params = to_params(query);
    url_query(&params)
}

/// The most documents that a feed holds.
pub const FEED_LIMIT: u32 = 32;

/// The query of a feed: `query` with its limit cut to [`FEED_LIMIT`], newest first.
pub fn for_feed(query: Search) -> (r: Search)
    ensures
        r@ == (SearchView {
            limit: Some(
                match query@.limit {
                    Some(n) => if n < FEED_LIMIT {
                        n
                    } else {
                        FEED_LIMIT
                    },
                    None => FEED_LIMIT,
                },
            ),
            sort_type: SortType::CreateDesc,
            ..query@
        }),
{
    let limit = match query.limit {
        Some(n) => if n < FEED_LIMIT {
            n
        } else {
            FEED_LIMIT
        },
        None => FEED_LIMIT,
    };
    Search {
        search_path: query.search_path,
        exclude_paths: query.exclude_paths,
        tags: query.tags,
        post_type: query.post_type,
        created: query.created,
        updated: query.updated,
        title_filter: query.title_filter,
        sort_type: SortType::CreateDesc,
        limit: Some(limit),
        ignore_hidden: query.ignore_hidden,
    }
}

/// A value as a list of values.
pub open spec fn as_values(value: Option<Seq<char>>) -> Seq<Seq<char>> {
    match value {
        Some(v) => seq![v],
        None => Seq::empty(),
    }
}

/// The fields of a query as names with their values.
pub open spec fn fields_of(q: SearchView) -> Seq<(Seq<char>, Seq<Seq<char>>)> {
    seq![
        ("sort_type"@, seq![q.sort_type.name()]),
        ("search_path"@, as_values(unless_empty(q.search_path))),
        ("exclude_path"@, q.exclude_paths),
        ("tag"@, q.tags),
        ("created_after"@, as_values(day_text(first_day(q.created.0)))),
        ("created_before"@, as_values(day_text(last_day(q.created.1)))),
        ("updated_after"@, as_values(day_text(first_day(q.updated.0)))),
        ("updated_before"@, as_values(day_text(last_day(q.updated.1)))),
        ("title_filter"@, as_values(q.title_filter)),
        ("post_type"@, as_values(type_text(q.post_type))),
        ("limit"@, as_values(limit_text(q.limit))),
        ("ignore_hidden"@, as_values(flag_text(q.ignore_hidden))),
    ]
}

/// The parameters of a list of fields: for each field, one parameter for each value.
pub open spec fn flat(fields: Seq<(Seq<char>, Seq<Seq<char>>)>) -> Params
    decreases fields.len(),
{
    if fields.len() == 0 {
        Seq::empty()
    } else {
        flat(fields.drop_last()) + many(fields.last().0, fields.last().1)
    }
}

/// The values of `a + b` are those of `a`, then those of `b`.
pub proof fn lemma_values_concat(a: Params, b: Params, name: Seq<char>)
    ensures
        values_for(a + b, name) == values_for(a, name) + values_for(b, name),
    decreases b.len(),
{
    if b.len() == 0 {
        assert(a + b =~= a);
        assert(values_for(a, name) + values_for(b, name) =~= values_for(a, name));
    } else {
        assert((a + b).drop_last() =~= a + b.drop_last());
        assert((a + b).last() == b.last());
        lemma_values_concat(a, b.drop_last(), name);
        if b.last().0 == name {
            assert(values_for(a + b, name) =~= values_for(a, name) + values_for(b, name));
        }
    }
}

/// The parameters of one field hold its values under its name and nothing
/// under another.
pub proof fn lemma_values_many(field: Seq<char>, values: Seq<Seq<char>>, name: Seq<char>)
    ensures
        values_for(many(field, values), name) == if field == name {
            values
        } else {
            Seq::empty()
        },
    decreases values.len(),
{
    if values.len() == 0 {
        assert(many(field, values) =~= Seq::empty());
        assert(values =~= Seq::empty());
    } else {
        assert(many(field, values).drop_last() =~= many(field, values.drop_last()));
        lemma_values_many(field, values.drop_last(), name);
        if field == name {
            assert(values_for(many(field, values), name) =~= values);
        }
    }
}

/// Where the names of the fields differ, the parameters of the fields hold
/// under the name of each field the values of that field.
pub proof fn lemma_values_of_fields(fields: Seq<(Seq<char>, Seq<Seq<char>>)>, i: int)
    requires
        0 <= i < fields.len(),
        forall|a: int, b: int| 0 <= a < b < fields.len() ==> fields[a].0 != fields[b].0,
    ensures
        values_for(flat(fields), fields[i].0) == fields[i].1,
    decreases fields.len(),
{
    let name = fields[i].0;
    let head = fields.drop_last();
    lemma_values_concat(flat(head), many(fields.last().0, fields.last().1), name);
    lemma_values_many(fields.last().0, fields.last().1, name);
    if i == fields.len() - 1 {
        lemma_values_absent(head, name);
        assert(Seq::<Seq<char>>::empty() + fields[i].1 =~= fields[i].1);
    } else {
        lemma_values_of_fields(head, i);
        assert(fields[i].1 + Seq::<Seq<char>>::empty() =~= fields[i].1);
    }
}

/// The parameters of fields hold nothing under a name that no field has.
pub proof fn lemma_values_absent(fields: Seq<(Seq<char>, Seq<Seq<char>>)>, name: Seq<char>)
    requires
        forall|a: int| 0 <= a < fields.len() ==> fields[a].0 != name,
    ensures
        values_for(flat(fields), name) == Seq::<Seq<char>>::empty(),
    decreases fields.len(),
{
    if fields.len() > 0 {
        let head = fields.drop_last();
        lemma_values_concat(flat(head), many(fields.last().0, fields.last().1), name);
        lemma_values_many(fields.last().0, fields.last().1, name);
        lemma_values_absent(head, name);
    }
}

/// The names of the parameters differ from each other.
pub proof fn lemma_names_differ(q: SearchView)
    ensures
        fields_of(q).len() == 12,
        forall|a: int, b: int| 0 <= a < b < 12 ==> fields_of(q)[a].0 != fields_of(q)[b].0,
{
    reveal_strlit("sort_type");
    reveal_strlit("search_path");
    reveal_strlit("exclude_path");
    reveal_strlit("tag");
    reveal_strlit("created_after");
    reveal_strlit("created_before");
    reveal_strlit("updated_after");
    reveal_strlit("updated_before");
    reveal_strlit("title_filter");
    reveal_strlit("post_type");
    reveal_strlit("limit");
    reveal_strlit("ignore_hidden");
    assert("ignore_hidden"@.len() == 13 && "ignore_hidden"@[0] == 'i');
    assert("sort_type"@.len() == 9 && "sort_type"@[0] == 's');
    assert("search_path"@.len() == 11);
    assert("exclude_path"@.len() == 12 && "exclude_path"@[0] == 'e');
    assert("tag"@.len() == 3);
    assert("created_after"@.len() == 13 && "created_after"@[0] == 'c');
    assert("created_before"@.len() == 14 && "created_before"@[0] == 'c');
    assert("updated_after"@.len() == 13 && "updated_after"@[0] == 'u');
    assert("updated_before"@.len() == 14 && "updated_before"@[0] == 'u');
    assert("title_filter"@.len() == 12 && "title_filter"@[0] == 't');
    assert("post_type"@.len() == 9 && "post_type"@[0] == 'p');
    assert("limit"@.len() == 5);
}

/// The parameters of a query are the parameters of its fields.
pub proof fn lemma_params_are_fields(q: SearchView)
    ensures
        params_of(q) == flat(fields_of(q)),
{
    let f = fields_of(q);
    reveal_with_fuel(flat, 13);
    assert(f.drop_last().len() == 11);
    assert(one("sort_type"@, q.sort_type.name()) =~= many("sort_type"@, seq![q.sort_type.name()]));
    assert forall|name: Seq<char>, value: Option<Seq<char>>| #[trigger]
        optional(name, value) == many(name, as_values(value)) by {
        assert(optional(name, value) =~= many(name, as_values(value)));
    }
    let f11 = f.drop_last();
    let f10 = f11.drop_last();
    let f9 = f10.drop_last();
    let f8 = f9.drop_last();
    let f7 = f8.drop_last();
    let f6 = f7.drop_last();
    let f5 = f6.drop_last();
    let f4 = f5.drop_last();
    let f3 = f4.drop_last();
    let f2 = f3.drop_last();
    let f1 = f2.drop_last();
    let f0 = f1.drop_last();
    assert(f0.len() == 0);
    assert(flat(f1) =~= many(f[0].0, f[0].1));
    assert(flat(f) =~= params_of(q));
}

/// A query is read back from its parameters, with each interval given by its
/// first and its last day.
pub proof fn lemma_params_round_trip(q: SearchView)
    requires
        q.days_read_back(),
    ensures
        query_of(params_of(q)) == Ok::<SearchView, QueryError>(q.inclusive()),
{
    let f = fields_of(q);
    let p = params_of(q);
    lemma_names_differ(q);
    lemma_params_are_fields(q);
    lemma_values_of_fields(f, 0);
    lemma_values_of_fields(f, 1);
    lemma_values_of_fields(f, 2);
    lemma_values_of_fields(f, 3);
    lemma_values_of_fields(f, 4);
    lemma_values_of_fields(f, 5);
    lemma_values_of_fields(f, 6);
    lemma_values_of_fields(f, 7);
    lemma_values_of_fields(f, 8);
    lemma_values_of_fields(f, 9);
    lemma_values_of_fields(f, 10);
    lemma_values_of_fields(f, 11);
    q.sort_type.lemma_name_round_trip();
    if q.post_type is Some {
        q.post_type->0.lemma_name_round_trip();
    }
    if q.limit is Some {
        crate::text::lemma_parse_decimal(q.limit->0);
    }
    reveal_strlit("true");
    reveal_strlit("false");
    assert("true"@.len() == 4 && "false"@.len() == 5);
    let want = q.inclusive();
    assert(values_for(p, "sort_type"@) == seq![q.sort_type.name()]);
    assert(sort_of(first_value(p, "sort_type"@)) == Some(q.sort_type));
    assert(bound_of(first_value(p, "created_after"@)) == Some(want.created.0));
    assert(bound_of(first_value(p, "created_before"@)) == Some(want.created.1));
    assert(bound_of(first_value(p, "updated_after"@)) == Some(want.updated.0));
    assert(bound_of(first_value(p, "updated_before"@)) == Some(want.updated.1));
    assert(type_of(first_value(p, "post_type"@)) == Some(q.post_type));
    assert(limit_of(first_value(p, "limit"@)) == Some(q.limit));
    assert(flag_of(first_value(p, "ignore_hidden"@)) == Some(q.ignore_hidden));
    assert(first_value(p, "title_filter"@) == q.title_filter);
    let path = match first_value(p, "search_path"@) {
        Some(x) => x,
        None => Seq::empty(),
    };
    assert(path =~= q.search_path);
    assert(query_of(p) is Ok);
    assert(query_of(p)->Ok_0.search_path == q.search_path);
}

/// An interval given by its first and its last day holds the same days.
pub proof fn lemma_inclusive_bounds(low: Bound<Ymd>, high: Bound<Ymd>, day: Ymd)
    requires
        bound_valid(low),
        bound_valid(high),
        day.valid(),
        !(low matches Bound::Excluded(d) && d.is_last()),
        !(high matches Bound::Excluded(d) && d.is_first()),
    ensures
        crate::date::in_bounds((included(first_day(low)), included(last_day(high))), day)
            == crate::date::in_bounds((low, high), day),
{
    match low {
        Bound::Excluded(d) => {
            crate::date::lemma_next_day(d);
        },
        _ => {},
    }
    match high {
        Bound::Excluded(d) => {
            crate::date::lemma_previous_day(d);
        },
        _ => {},
    }
}

/// What is read back from the parameters of a query is the same query: it
/// selects the same documents, sorts them alike and has the same limit. This
/// holds of every query but one with an interval that begins after the last
/// day that a date can be, or ends before the first: such an interval cannot
/// be given by a first and a last day.
pub proof fn lemma_round_trip_equivalent(
    q: SearchView,
    path: Seq<char>,
    meta: crate::meta::ArticleMetaView,
)
    requires
        q.days_valid(),
        q.within_calendar(),
        meta.created.valid(),
        meta.updated.valid(),
    ensures
        q.inclusive().matches(path, meta) == q.matches(path, meta),
        q.inclusive().sort_type == q.sort_type,
        q.inclusive().limit == q.limit,
{
    lemma_inclusive_bounds(q.created.0, q.created.1, meta.created);
    lemma_inclusive_bounds(q.updated.0, q.updated.1, meta.updated);
    let r = q.inclusive();
    assert(r.exclude_paths == q.exclude_paths && r.tags == q.tags);
    assert(r.not_excluded(path) == q.not_excluded(path)) by {
        if q.not_excluded(path) {
            assert forall|i: int| 0 <= i < r.exclude_paths.len() implies !crate::text::begins_with(
                path,
                r.exclude_paths[i],
            ) by {
                assert(!crate::text::begins_with(path, q.exclude_paths[i]));
            }
        }
        if r.not_excluded(path) {
            assert forall|i: int| 0 <= i < q.exclude_paths.len() implies !crate::text::begins_with(
                path,
                q.exclude_paths[i],
            ) by {
                assert(!crate::text::begins_with(path, r.exclude_paths[i]));
            }
        }
    }
    assert(r.tags_held(meta) == q.tags_held(meta)) by {
        if q.tags_held(meta) {
            assert forall|i: int| 0 <= i < r.tags.len() implies meta.tags.contains(r.tags[i]) by {
                assert(meta.tags.contains(q.tags[i]));
            }
        }
        if r.tags_held(meta) {
            assert forall|i: int| 0 <= i < q.tags.len() implies meta.tags.contains(q.tags[i]) by {
                assert(meta.tags.contains(r.tags[i]));
            }
        }
    }
}

} // verus!
