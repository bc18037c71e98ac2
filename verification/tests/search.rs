use wolog::date::{Bound, Date};
use wolog::meta::{ArticleMeta, PostType};
use wolog::query::{search, Search, SortType};
use wolog::tags::{tag_counts, tags};

fn day(y: i32, m: u32, d: u32) -> Date {
    Date::from_ymd(y, m, d).unwrap()
}

fn doc(title: &str, created: Date, updated: Date, tag_list: &[&str]) -> ArticleMeta {
    ArticleMeta {
        title: title.to_string(),
        post_type: PostType::Note,
        blurb: String::new(),
        tags: tag_list.iter().map(|t| t.to_string()).collect(),
        template: "note".to_string(),
        toc: Vec::new(),
        exclude_from_rss: false,
        hidden: false,
        updated,
        created,
        ready: true,
        always_rerender: false,
        extra: Vec::new(),
        mentioners: Vec::new(),
        mentions: Vec::new(),
    }
}

fn two_documents() -> Vec<(String, ArticleMeta)> {
    vec![
        ("a".to_string(), doc("A", day(2024, 1, 1), day(2024, 1, 1), &["x"])),
        ("b".to_string(), doc("B", day(2024, 2, 1), day(2024, 2, 1), &["y"])),
    ]
}

fn library() -> Vec<(String, ArticleMeta)> {
    let mut article = doc("Pears", day(2023, 5, 1), day(2024, 3, 1), &["fruit", "green"]);
    article.post_type = PostType::Article;
    let mut hidden = doc("Secret", day(2023, 6, 1), day(2023, 6, 2), &["fruit"]);
    hidden.hidden = true;
    vec![
        ("notes/apples".to_string(), doc("Apples", day(2023, 1, 10), day(2023, 2, 1), &["fruit"])),
        ("notes/pears".to_string(), article),
        ("drafts/secret".to_string(), hidden),
        ("notes/old/quince".to_string(), doc("Quince", day(2020, 1, 1), day(2020, 1, 1), &[])),
        ("misc/apple pie".to_string(), doc("Apple pie", day(2023, 1, 10), day(2023, 1, 11), &["food", "fruit"])),
    ]
}

fn paths(found: &[(String, ArticleMeta)]) -> Vec<&str> {
    found.iter().map(|(p, _)| p.as_str()).collect()
}

#[test]
fn tag_query_returns_only_the_tagged_document() {
    let mut q = Search::new();
    q.tags = vec!["x".to_string()];
    assert_eq!(paths(&search(two_documents(), &q)), vec!["a"]);
}

#[test]
fn create_asc_and_desc_order_by_creation_date() {
    let mut q = Search::new();
    q.sort_type = SortType::CreateAsc;
    assert_eq!(paths(&search(two_documents(), &q)), vec!["a", "b"]);
    q.sort_type = SortType::CreateDesc;
    assert_eq!(paths(&search(two_documents(), &q)), vec!["b", "a"]);
}

#[test]
fn default_query_hides_hidden_documents_and_sorts_newest_first() {
    let q = Search::new();
    assert_eq!(
        paths(&search(library(), &q)),
        vec!["notes/pears", "notes/apples", "misc/apple pie", "notes/old/quince"]
    );
}

#[test]
fn ignore_hidden_shows_hidden_documents() {
    let mut q = Search::new();
    q.ignore_hidden = true;
    q.sort_type = SortType::NameAsc;
    assert_eq!(
        paths(&search(library(), &q)),
        vec!["misc/apple pie", "notes/apples", "notes/pears", "notes/old/quince", "drafts/secret"]
    );
}

#[test]
fn path_prefix_and_excluded_prefixes_filter_by_path() {
    let mut q = Search::new();
    q.search_path = "notes/".to_string();
    q.exclude_paths = vec!["notes/old".to_string(), "nowhere".to_string()];
    q.sort_type = SortType::NameAsc;
    assert_eq!(paths(&search(library(), &q)), vec!["notes/apples", "notes/pears"]);
}

#[test]
fn every_required_tag_must_be_borne() {
    let mut q = Search::new();
    q.tags = vec!["fruit".to_string(), "food".to_string()];
    assert_eq!(paths(&search(library(), &q)), vec!["misc/apple pie"]);
    q.tags = vec!["none".to_string()];
    assert!(search(library(), &q).is_empty());
}

#[test]
fn post_type_filter_keeps_only_that_type() {
    let mut q = Search::new();
    q.post_type = Some(PostType::Article);
    assert_eq!(paths(&search(library(), &q)), vec!["notes/pears"]);
    q.post_type = Some(PostType::Reply);
    assert!(search(library(), &q).is_empty());
}

#[test]
fn date_bounds_are_included_or_excluded_as_said() {
    let mut q = Search::new();
    q.sort_type = SortType::NameAsc;
    q.created = (Bound::Included(day(2023, 1, 10)), Bound::Included(day(2023, 5, 1)));
    assert_eq!(
        paths(&search(library(), &q)),
        vec!["misc/apple pie", "notes/apples", "notes/pears"]
    );
    q.created = (Bound::Excluded(day(2023, 1, 10)), Bound::Included(day(2023, 5, 1)));
    assert_eq!(paths(&search(library(), &q)), vec!["notes/pears"]);
    q.created = (Bound::Included(day(2023, 1, 10)), Bound::Excluded(day(2023, 5, 1)));
    assert_eq!(paths(&search(library(), &q)), vec!["misc/apple pie", "notes/apples"]);
    q.created = (Bound::Unbounded, Bound::Unbounded);
    q.updated = (Bound::Included(day(2024, 1, 1)), Bound::Unbounded);
    assert_eq!(paths(&search(library(), &q)), vec!["notes/pears"]);
}

#[test]
fn title_filter_is_a_substring_match_that_keeps_case() {
    let mut q = Search::new();
    q.sort_type = SortType::NameAsc;
    q.title_filter = Some("pple".to_string());
    assert_eq!(paths(&search(library(), &q)), vec!["misc/apple pie", "notes/apples"]);
    q.title_filter = Some("apple".to_string());
    assert!(search(library(), &q).is_empty());
    q.title_filter = Some(String::new());
    assert_eq!(search(library(), &q).len(), 4);
}

#[test]
fn each_sort_order_orders_by_its_key() {
    let mut q = Search::new();
    q.sort_type = SortType::UpdateAsc;
    assert_eq!(
        paths(&search(library(), &q)),
        vec!["notes/old/quince", "misc/apple pie", "notes/apples", "notes/pears"]
    );
    q.sort_type = SortType::UpdateDesc;
    assert_eq!(
        paths(&search(library(), &q)),
        vec!["notes/pears", "notes/apples", "misc/apple pie", "notes/old/quince"]
    );
    q.sort_type = SortType::NameAsc;
    assert_eq!(
        paths(&search(library(), &q)),
        vec!["misc/apple pie", "notes/apples", "notes/pears", "notes/old/quince"]
    );
    q.sort_type = SortType::NameDesc;
    assert_eq!(
        paths(&search(library(), &q)),
        vec!["notes/old/quince", "notes/pears", "notes/apples", "misc/apple pie"]
    );
}

#[test]
fn documents_with_equal_keys_keep_the_order_of_the_corpus() {
    let mut q = Search::new();
    q.sort_type = SortType::CreateAsc;
    // apples and apple pie were created on the same day; apples stands first in the corpus
    assert_eq!(
        paths(&search(library(), &q)),
        vec!["notes/old/quince", "notes/apples", "misc/apple pie", "notes/pears"]
    );
    q.sort_type = SortType::CreateDesc;
    assert_eq!(
        paths(&search(library(), &q)),
        vec!["notes/pears", "notes/apples", "misc/apple pie", "notes/old/quince"]
    );
}

#[test]
fn limit_cuts_the_sorted_result_not_the_corpus() {
    let mut q = Search::new();
    q.sort_type = SortType::CreateDesc;
    q.limit = Some(1);
    // the newest document stands second in the corpus
    assert_eq!(paths(&search(library(), &q)), vec!["notes/pears"]);
    q.limit = Some(0);
    assert!(search(library(), &q).is_empty());
    q.limit = Some(100);
    assert_eq!(search(library(), &q).len(), 4);
}

#[test]
fn every_returned_document_meets_every_filter() {
    let mut q = Search::new();
    q.search_path = "notes".to_string();
    q.tags = vec!["fruit".to_string()];
    q.created = (Bound::Included(day(2023, 1, 1)), Bound::Unbounded);
    let found = search(library(), &q);
    assert_eq!(found.len(), 2);
    for (path, meta) in &found {
        assert!(q.matches(path, meta));
        assert!(path.starts_with("notes"));
        assert!(meta.tags.contains(&"fruit".to_string()));
        assert!(!meta.hidden);
    }
    for (path, meta) in &library() {
        let returned = found.iter().any(|(p, _)| p == path);
        assert_eq!(returned, q.matches(path, meta));
    }
}

#[test]
fn sort_fn_compares_as_the_order_says() {
    let a = ("a".to_string(), doc("A", day(2024, 1, 1), day(2024, 3, 1), &[]));
    let b = ("b".to_string(), doc("B", day(2024, 2, 1), day(2024, 2, 1), &[]));
    assert_eq!(SortType::CreateAsc.sort_fn(&a, &b), std::cmp::Ordering::Less);
    assert_eq!(SortType::CreateDesc.sort_fn(&a, &b), std::cmp::Ordering::Greater);
    assert_eq!(SortType::UpdateAsc.sort_fn(&a, &b), std::cmp::Ordering::Greater);
    assert_eq!(SortType::UpdateDesc.sort_fn(&a, &b), std::cmp::Ordering::Less);
    assert_eq!(SortType::NameAsc.sort_fn(&a, &b), std::cmp::Ordering::Less);
    assert_eq!(SortType::NameDesc.sort_fn(&a, &b), std::cmp::Ordering::Greater);
    assert_eq!(SortType::NameAsc.sort_fn(&a, &a), std::cmp::Ordering::Equal);
}

#[test]
fn sort_type_names_are_read_back() {
    let all = [
        SortType::CreateAsc,
        SortType::CreateDesc,
        SortType::UpdateAsc,
        SortType::UpdateDesc,
        SortType::NameAsc,
        SortType::NameDesc,
    ];
    for s in all {
        assert_eq!(SortType::from_name(s.as_str()), Some(s));
    }
    assert_eq!(SortType::CreateDesc.as_str(), "CreateDesc");
    assert_eq!(SortType::from_name("createdesc"), None);
    assert_eq!(SortType::default(), SortType::CreateDesc);
}

#[test]
fn tags_are_listed_once_in_order() {
    let rows = vec![
        vec!["pear".to_string(), "apple".to_string()],
        vec![],
        vec!["apple".to_string(), "Zebra".to_string(), "fig".to_string()],
    ];
    assert_eq!(tags(&rows), vec!["Zebra", "apple", "fig", "pear"]);
    assert!(tags(&Vec::new()).is_empty());
}

#[test]
fn tag_counts_count_each_use() {
    let rows = vec![
        vec!["pear".to_string(), "apple".to_string()],
        vec!["apple".to_string(), "fig".to_string(), "apple".to_string()],
    ];
    assert_eq!(
        tag_counts(&rows),
        vec![("pear".to_string(), 1), ("apple".to_string(), 3), ("fig".to_string(), 1)]
    );
}
