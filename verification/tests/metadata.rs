use wolog::date::Date;
use wolog::frontmatter::{Field, MetaError, DEFAULT_TEMPLATE, DEFAULT_TITLE};
use wolog::meta::{toc_html, ArticleMeta, PostType, Toc};
use wolog::tree::{meta_get, meta_insert, MetaValue, Tree};

fn string(s: &str) -> MetaValue {
    MetaValue::MetaString(s.to_string())
}

fn list(items: &[&str]) -> MetaValue {
    MetaValue::MetaList(items.iter().map(|s| string(s)).collect())
}

fn map(entries: Vec<(&str, MetaValue)>) -> MetaValue {
    MetaValue::MetaMap(entries.into_iter().map(|(k, v)| (k.to_string(), v)).collect())
}

fn tree(meta: Vec<(&str, MetaValue)>) -> Tree {
    Tree { meta: meta.into_iter().map(|(k, v)| (k.to_string(), v)).collect(), blocks: Vec::new() }
}

fn dated(mut more: Vec<(&'static str, MetaValue)>) -> Tree {
    let mut meta = vec![("created", string("2024-01-02")), ("updated", string("2024-03-04"))];
    meta.append(&mut more);
    tree(meta)
}

#[test]
fn front_matter_with_only_dates_gives_defaults() {
    let meta = ArticleMeta::try_from(&dated(vec![])).unwrap();
    assert_eq!(
        meta,
        ArticleMeta {
            title: "Untitled Page".to_string(),
            post_type: PostType::Note,
            blurb: String::new(),
            tags: Vec::new(),
            template: "article.html.tera".to_string(),
            toc: Vec::new(),
            exclude_from_rss: false,
            hidden: false,
            updated: Date::from_ymd(2024, 3, 4).unwrap(),
            created: Date::from_ymd(2024, 1, 2).unwrap(),
            ready: false,
            always_rerender: false,
            extra: Vec::new(),
            mentioners: Vec::new(),
            mentions: Vec::new(),
        }
    );
    assert_eq!(DEFAULT_TITLE, "Untitled Page");
    assert_eq!(DEFAULT_TEMPLATE, "article.html.tera");
}

#[test]
fn front_matter_sets_every_field() {
    let t = dated(vec![
        ("title", string("Pears")),
        ("post_type", string("Repost")),
        ("blurb", string("About pears")),
        ("tags", list(&["fruit", "green"])),
        ("template", string("custom")),
        (
            "toc",
            MetaValue::MetaList(vec![
                map(vec![("Text", string("Intro"))]),
                map(vec![(
                    "Heading",
                    map(vec![
                        ("anchor", string("a")),
                        ("label", string("A")),
                        ("ignored", MetaValue::MetaBool(true)),
                        ("subheadings", MetaValue::MetaList(vec![map(vec![("Text", string("sub"))])])),
                    ]),
                )]),
            ]),
        ),
        ("exclude_from_rss", MetaValue::MetaBool(true)),
        ("hidden", MetaValue::MetaBool(true)),
        ("ready", MetaValue::MetaBool(true)),
        ("always_rerender", MetaValue::MetaBool(true)),
        ("author", string("me")),
        ("mentioners", list(&["https://m/"])),
        ("mentions", list(&["https://a/", "https://b/"])),
        ("series", map(vec![("part", string("2"))])),
    ]);
    let meta = ArticleMeta::try_from(&t).unwrap();
    assert_eq!(meta.title, "Pears");
    assert_eq!(meta.post_type, PostType::Repost);
    assert_eq!(meta.blurb, "About pears");
    assert_eq!(meta.tags, vec!["fruit", "green"]);
    assert_eq!(meta.template, "custom");
    assert_eq!(
        meta.toc,
        vec![
            Toc::Text("Intro".to_string()),
            Toc::Heading {
                label: "A".to_string(),
                anchor: "a".to_string(),
                subheadings: vec![Toc::Text("sub".to_string())],
            },
        ]
    );
    assert!(meta.exclude_from_rss && meta.hidden && meta.ready && meta.always_rerender);
    assert_eq!(meta.mentioners, vec!["https://m/"]);
    assert_eq!(meta.mentions, vec!["https://a/", "https://b/"]);
    assert_eq!(
        meta.extra,
        vec![
            ("author".to_string(), string("me")),
            ("series".to_string(), map(vec![("part", string("2"))])),
        ]
    );
}

#[test]
fn both_dates_must_be_set() {
    assert_eq!(ArticleMeta::try_from(&tree(vec![])), Err(MetaError::Missing(Field::Updated)));
    assert_eq!(
        ArticleMeta::try_from(&tree(vec![("created", string("2024-01-02"))])),
        Err(MetaError::Missing(Field::Updated))
    );
    assert_eq!(
        ArticleMeta::try_from(&tree(vec![("updated", string("2024-01-02"))])),
        Err(MetaError::Missing(Field::Created))
    );
}

#[test]
fn each_field_rejects_a_value_that_it_cannot_have() {
    let wrong: Vec<(&'static str, MetaValue, Field)> = vec![
        ("title", MetaValue::MetaBool(true), Field::Title),
        ("post_type", string("Essay"), Field::PostType),
        ("blurb", list(&[]), Field::Blurb),
        ("tags", string("fruit"), Field::Tags),
        ("tags", MetaValue::MetaList(vec![string("a"), MetaValue::MetaBool(true)]), Field::Tags),
        ("template", MetaValue::MetaBool(false), Field::Template),
        ("toc", string("x"), Field::Toc),
        ("toc", MetaValue::MetaList(vec![string("x")]), Field::Toc),
        ("toc", MetaValue::MetaList(vec![map(vec![("Other", string("x"))])]), Field::Toc),
        ("toc", MetaValue::MetaList(vec![map(vec![("Text", string("x")), ("Text", string("y"))])]), Field::Toc),
        (
            "toc",
            MetaValue::MetaList(vec![map(vec![("Heading", map(vec![("label", string("l")), ("anchor", string("a"))]))])]),
            Field::Toc,
        ),
        ("exclude_from_rss", string("true"), Field::ExcludeFromRss),
        ("hidden", string("no"), Field::Hidden),
        ("ready", list(&[]), Field::Ready),
        ("always_rerender", string(""), Field::AlwaysRerender),
        ("mentioners", MetaValue::MetaBool(true), Field::Mentioners),
        ("mentions", string("https://a/"), Field::Mentions),
    ];
    for (key, value, field) in wrong {
        assert_eq!(ArticleMeta::try_from(&dated(vec![(key, value)])), Err(MetaError::Invalid(field)), "{key}");
    }
    assert_eq!(
        ArticleMeta::try_from(&tree(vec![("created", string("2024-01-02")), ("updated", string("soon"))])),
        Err(MetaError::Invalid(Field::Updated))
    );
    assert_eq!(
        ArticleMeta::try_from(&tree(vec![("updated", string("2024-01-02")), ("created", MetaValue::MetaBool(true))])),
        Err(MetaError::Invalid(Field::Created))
    );
}

#[test]
fn the_first_wrong_field_decides_the_error() {
    let t = tree(vec![
        ("mentions", string("x")),
        ("hidden", string("x")),
        ("tags", string("x")),
    ]);
    assert_eq!(ArticleMeta::try_from(&t), Err(MetaError::Invalid(Field::Tags)));
    let u = tree(vec![("mentions", string("x")), ("hidden", string("x"))]);
    assert_eq!(ArticleMeta::try_from(&u), Err(MetaError::Invalid(Field::Hidden)));
    let v = tree(vec![("mentions", string("x"))]);
    assert_eq!(ArticleMeta::try_from(&v), Err(MetaError::Missing(Field::Updated)));
}

#[test]
fn field_keys_are_the_names_of_the_fields() {
    assert_eq!(Field::Title.as_str(), "title");
    assert_eq!(Field::ExcludeFromRss.as_str(), "exclude_from_rss");
    assert_eq!(Field::AlwaysRerender.as_str(), "always_rerender");
    assert_eq!(Field::Mentioners.as_str(), "mentioners");
}

#[test]
fn first_entry_of_a_key_counts_and_insert_replaces_it() {
    let mut meta = vec![
        ("a".to_string(), string("1")),
        ("b".to_string(), string("2")),
        ("a".to_string(), string("3")),
    ];
    assert_eq!(meta_get(&meta, "a"), Some(&string("1")));
    assert_eq!(meta_get(&meta, "c"), None);
    meta_insert(&mut meta, "a", string("9"));
    meta_insert(&mut meta, "c", string("4"));
    assert_eq!(
        meta,
        vec![
            ("a".to_string(), string("9")),
            ("b".to_string(), string("2")),
            ("a".to_string(), string("3")),
            ("c".to_string(), string("4")),
        ]
    );
}

#[test]
fn table_of_contents_is_written_as_list_items() {
    assert_eq!(Toc::Text("x".to_string()).to_html(), "<li>x</li>");
    let bare = Toc::Heading { label: "L".to_string(), anchor: "l".to_string(), subheadings: Vec::new() };
    assert_eq!(bare.to_html(), "<li><a href=\"#l\">L</a></li>");
    let nested = Toc::Heading {
        label: "Top".to_string(),
        anchor: "top".to_string(),
        subheadings: vec![
            Toc::Text("note".to_string()),
            Toc::Heading { label: "In".to_string(), anchor: "in".to_string(), subheadings: Vec::new() },
        ],
    };
    assert_eq!(
        nested.to_html(),
        "<li><a href=\"#top\">Top</a><ul><li>note</li><li><a href=\"#in\">In</a></li></ul></li>"
    );
    assert_eq!(toc_html(&vec![Toc::Text("a".to_string()), Toc::Text("b".to_string())]), "<li>a</li><li>b</li>");
    assert_eq!(toc_html(&Vec::new()), "");
}

#[test]
fn post_type_names_and_templates() {
    let all = [PostType::Note, PostType::Article, PostType::Like, PostType::Repost, PostType::Reply];
    let names = ["Note", "Article", "Like", "Repost", "Reply"];
    let templates = ["note", "article", "like", "repost", "reply"];
    for i in 0..5 {
        assert_eq!(all[i].as_str(), names[i]);
        assert_eq!(all[i].template_name(), templates[i]);
        assert_eq!(PostType::from_name(names[i]), Some(all[i]));
    }
    assert_eq!(PostType::from_name("note"), None);
    assert_eq!(PostType::from_name(""), None);
    assert_eq!(PostType::default(), PostType::Note);
}
