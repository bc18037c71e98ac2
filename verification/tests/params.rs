use wolog::date::{Bound, Date, MAX_YEAR, MIN_YEAR};
use wolog::meta::PostType;
use wolog::params::{
    for_feed, from_params, param_value, param_values, to_params, to_query, DateField,
    DateFieldError, QueryError, SearchForm, FEED_LIMIT,
};
use wolog::query::{Search, SortType};

fn day(y: i32, m: u32, d: u32) -> Date {
    Date::from_ymd(y, m, d).unwrap()
}

fn pairs(list: &[(&str, &str)]) -> Vec<(String, String)> {
    list.iter().map(|(k, v)| (k.to_string(), v.to_string())).collect()
}

fn full_query() -> Search {
    Search {
        search_path: "notes/".to_string(),
        exclude_paths: vec!["notes/old".to_string(), "notes/tmp".to_string()],
        tags: vec!["fruit".to_string(), "green".to_string()],
        post_type: Some(PostType::Reply),
        created: (Bound::Included(day(2023, 1, 2)), Bound::Included(day(2023, 12, 31))),
        updated: (Bound::Included(day(2024, 2, 29)), Bound::Included(day(2024, 3, 1))),
        title_filter: Some("pie & cake".to_string()),
        sort_type: SortType::NameAsc,
        limit: Some(25),
        ignore_hidden: false,
    }
}

#[test]
fn default_query_has_only_its_sort_order_as_parameter() {
    assert_eq!(to_params(&Search::new()), pairs(&[("sort_type", "CreateDesc")]));
}

#[test]
fn every_field_that_is_set_becomes_a_parameter() {
    assert_eq!(
        to_params(&full_query()),
        pairs(&[
            ("sort_type", "NameAsc"),
            ("search_path", "notes/"),
            ("exclude_path", "notes/old"),
            ("exclude_path", "notes/tmp"),
            ("tag", "fruit"),
            ("tag", "green"),
            ("created_after", "2023-01-02"),
            ("created_before", "2023-12-31"),
            ("updated_after", "2024-02-29"),
            ("updated_before", "2024-03-01"),
            ("title_filter", "pie & cake"),
            ("post_type", "Reply"),
            ("limit", "25"),
        ])
    );
}

#[test]
fn excluded_ends_are_written_as_the_neighbouring_day() {
    let mut q = Search::new();
    q.created = (Bound::Excluded(day(2023, 12, 31)), Bound::Excluded(day(2024, 3, 1)));
    q.ignore_hidden = true;
    assert_eq!(
        to_params(&q),
        pairs(&[
            ("sort_type", "CreateDesc"),
            ("created_after", "2024-01-01"),
            ("created_before", "2024-02-29"),
            ("ignore_hidden", "true"),
        ])
    );
    let back = from_params(&to_params(&q)).unwrap();
    assert_eq!(back.created, (Bound::Included(day(2024, 1, 1)), Bound::Included(day(2024, 2, 29))));
    assert!(back.ignore_hidden);
}

#[test]
fn an_end_beyond_the_calendar_stands_as_it_is() {
    let mut q = Search::new();
    q.updated = (Bound::Excluded(day(MAX_YEAR, 12, 31)), Bound::Excluded(day(MIN_YEAR, 1, 1)));
    assert_eq!(
        to_params(&q),
        pairs(&[
            ("sort_type", "CreateDesc"),
            ("updated_after", "+262142-12-31"),
            ("updated_before", "-262143-01-01"),
        ])
    );
}

#[test]
fn a_query_is_read_back_from_its_parameters() {
    assert_eq!(from_params(&to_params(&full_query())), Ok(full_query()));
    assert_eq!(from_params(&to_params(&Search::new())), Ok(Search::new()));
    let mut q = full_query();
    q.title_filter = Some(String::new());
    q.limit = Some(u32::MAX);
    q.ignore_hidden = true;
    q.post_type = Some(PostType::Note);
    q.created = (Bound::Unbounded, Bound::Included(day(-5, 1, 1)));
    assert_eq!(from_params(&to_params(&q)), Ok(q));
}

#[test]
fn parameters_are_read_with_defaults_for_what_is_absent() {
    assert_eq!(from_params(&Vec::new()), Ok(Search::new()));
    let q = from_params(&pairs(&[
        ("tag", "a"),
        ("unknown", "x"),
        ("limit", "3"),
        ("tag", "b"),
        ("limit", "4"),
        ("created_before", "2024-1-5"),
        ("ignore_hidden", "false"),
    ]))
    .unwrap();
    assert_eq!(q.tags, vec!["a", "b"]);
    assert_eq!(q.limit, Some(3));
    assert_eq!(q.created, (Bound::Unbounded, Bound::Included(day(2024, 1, 5))));
    assert_eq!(q.sort_type, SortType::CreateDesc);
    assert!(!q.ignore_hidden);
    assert_eq!(q.search_path, "");
    assert_eq!(q.title_filter, None);
}

#[test]
fn each_parameter_that_cannot_be_read_has_its_error() {
    assert_eq!(from_params(&pairs(&[("created_after", "x")])), Err(QueryError::CreatedAfter));
    assert_eq!(from_params(&pairs(&[("created_before", "")])), Err(QueryError::CreatedBefore));
    assert_eq!(from_params(&pairs(&[("updated_after", "2023-02-30")])), Err(QueryError::UpdatedAfter));
    assert_eq!(from_params(&pairs(&[("updated_before", "tomorrow")])), Err(QueryError::UpdatedBefore));
    assert_eq!(from_params(&pairs(&[("sort_type", "Newest")])), Err(QueryError::SortType));
    assert_eq!(from_params(&pairs(&[("post_type", "note")])), Err(QueryError::PostType));
    assert_eq!(from_params(&pairs(&[("limit", "-1")])), Err(QueryError::Limit));
    assert_eq!(from_params(&pairs(&[("ignore_hidden", "yes")])), Err(QueryError::IgnoreHidden));
    // the first that is wrong decides
    assert_eq!(
        from_params(&pairs(&[("limit", "x"), ("sort_type", "x"), ("updated_after", "x")])),
        Err(QueryError::UpdatedAfter)
    );
}

#[test]
fn values_of_a_name_are_found_in_order() {
    let p = pairs(&[("a", "1"), ("b", "2"), ("a", "3")]);
    assert_eq!(param_values(&p, "a"), vec!["1", "3"]);
    assert!(param_values(&p, "c").is_empty());
    assert_eq!(param_value(&p, "a"), Some(&"1".to_string()));
    assert_eq!(param_value(&p, "b"), Some(&"2".to_string()));
    assert_eq!(param_value(&p, "c"), None);
}

#[test]
fn query_string_is_written_by_url() {
    let mut q = Search::new();
    q.tags = vec!["x y".to_string(), "z&w".to_string()];
    q.limit = Some(7);
    q.created.0 = Bound::Included(day(2024, 1, 1));
    assert_eq!(
        to_query(&q),
        "sort_type=CreateDesc&tag=x+y&tag=z%26w&created_after=2024-01-01&limit=7"
    );
    assert_eq!(to_query(&Search::new()), "sort_type=CreateDesc");
}

#[test]
fn feed_query_is_limited_and_newest_first() {
    let mut q = full_query();
    q.limit = Some(100);
    let feed = for_feed(q);
    assert_eq!(feed.limit, Some(FEED_LIMIT));
    assert_eq!(feed.limit, Some(32));
    assert_eq!(feed.sort_type, SortType::CreateDesc);
    assert_eq!(feed.tags, full_query().tags);
    assert_eq!(feed.search_path, "notes/");
    assert_eq!(for_feed(full_query()).limit, Some(25));
    assert_eq!(for_feed(Search::new()).limit, Some(32));
}

#[test]
fn form_becomes_a_query_with_included_ends() {
    let form = SearchForm {
        search_path: "p".to_string(),
        exclude_path: vec!["q".to_string()],
        tag: vec!["t".to_string()],
        created_after: Some(DateField(day(2024, 1, 1))),
        created_before: None,
        updated_after: None,
        updated_before: Some(DateField(day(2024, 6, 1))),
        title_filter: Some("f".to_string()),
        sort_type: SortType::UpdateAsc,
        post_type: Some(PostType::Like),
        limit: Some(9),
    };
    assert_eq!(
        Search::from(form),
        Search {
            search_path: "p".to_string(),
            exclude_paths: vec!["q".to_string()],
            tags: vec!["t".to_string()],
            post_type: Some(PostType::Like),
            created: (Bound::Included(day(2024, 1, 1)), Bound::Unbounded),
            updated: (Bound::Unbounded, Bound::Included(day(2024, 6, 1))),
            title_filter: Some("f".to_string()),
            sort_type: SortType::UpdateAsc,
            limit: Some(9),
            ignore_hidden: false,
        }
    );
}

#[test]
fn date_field_is_missing_invalid_or_a_date() {
    assert_eq!(DateField::from_value(""), Err(DateFieldError::Missing));
    assert_eq!(DateField::from_value("soon"), Err(DateFieldError::Invalid));
    assert_eq!(DateField::from_value("2024-05-06"), Ok(DateField(day(2024, 5, 6))));
}
