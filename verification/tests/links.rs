use wolog::links::{attach_mentioners, find_links, scan_links, BRIDGE};
use wolog::meta::PostType;
use wolog::tree::{meta_get, Attr, Block, Inline, MetaValue, Tree};

fn text(s: &str) -> Inline {
    Inline::Str(s.to_string())
}

fn link(classes: &[&str], url: &str) -> Inline {
    Inline::Link(
        Attr {
            id: String::new(),
            classes: classes.iter().map(|c| c.to_string()).collect(),
            attrs: Vec::new(),
        },
        vec![text("here")],
        (url.to_string(), String::new()),
    )
}

fn string(s: &str) -> MetaValue {
    MetaValue::MetaString(s.to_string())
}

fn tree(meta: Vec<(&str, MetaValue)>, blocks: Vec<Block>) -> Tree {
    Tree { meta: meta.into_iter().map(|(k, v)| (k.to_string(), v)).collect(), blocks }
}

fn post_type_of(t: &Tree) -> String {
    match meta_get(&t.meta, "post_type") {
        Some(MetaValue::MetaString(s)) => s.clone(),
        other => panic!("no post type: {other:?}"),
    }
}

fn mentions_of(t: &Tree) -> Vec<String> {
    match meta_get(&t.meta, "mentions") {
        Some(MetaValue::MetaList(items)) => items
            .iter()
            .map(|v| match v {
                MetaValue::MetaString(s) => s.clone(),
                other => panic!("no text: {other:?}"),
            })
            .collect(),
        other => panic!("no mentions: {other:?}"),
    }
}

#[test]
fn like_link_without_title_makes_a_like() {
    let t = tree(
        vec![],
        vec![Block::Para(vec![text("I like"), Inline::Space, link(&["mention", "u-like-of"], "https://a/")])],
    );
    let found = find_links(t, BRIDGE);
    assert_eq!(post_type_of(&found), "Like");
    assert_eq!(mentions_of(&found), vec!["https://a/", "https://fed.brid.gy/"]);
    assert_eq!(meta_get(&found.meta, "template"), Some(&string("like")));
}

#[test]
fn title_without_classified_link_makes_an_article() {
    let t = tree(
        vec![("title", string("Hello"))],
        vec![Block::Para(vec![link(&["mention"], "https://a/"), link(&["u-like-of"], "https://b/")])],
    );
    let found = find_links(t, BRIDGE);
    assert_eq!(post_type_of(&found), "Article");
    assert_eq!(mentions_of(&found), vec!["https://a/", "https://fed.brid.gy/"]);
    assert_eq!(meta_get(&found.meta, "template"), Some(&string("article")));
}

#[test]
fn neither_title_nor_classified_link_makes_a_note() {
    let found = find_links(tree(vec![], vec![Block::Para(vec![text("hi")])]), BRIDGE);
    assert_eq!(post_type_of(&found), "Note");
    assert_eq!(mentions_of(&found), vec!["https://fed.brid.gy/"]);
    assert_eq!(meta_get(&found.meta, "template"), Some(&string("note")));
    assert_eq!(found.blocks, vec![Block::Para(vec![text("hi")])]);
}

#[test]
fn classified_link_wins_over_title() {
    let t = tree(
        vec![("title", string("Hello"))],
        vec![Block::Para(vec![link(&["u-in-reply-to", "mention"], "https://a/")])],
    );
    assert_eq!(post_type_of(&find_links(t, BRIDGE)), "Reply");
}

#[test]
fn first_classified_mention_decides() {
    let blocks = vec![
        Block::Header(1, Attr::empty(), vec![link(&["mention"], "https://plain/")]),
        Block::BlockQuote(vec![Block::Plain(vec![link(&["mention", "x", "u-repost-of", "u-like-of"], "https://r/")])]),
        Block::LineBlock(vec![vec![link(&["mention", "u-like-of"], "https://l/")]]),
    ];
    let scan = scan_links(&blocks);
    assert_eq!(scan.post_type, PostType::Repost);
    assert_eq!(scan.mentions, vec!["https://plain/", "https://r/", "https://l/"]);
}

#[test]
fn links_inside_links_styles_and_lists_are_found() {
    let inner = link(&["mention", "u-like-of"], "https://inner/");
    let outer = Inline::Link(
        Attr { id: String::new(), classes: vec!["mention".to_string()], attrs: Vec::new() },
        vec![Inline::Styled("Emph".to_string(), vec![inner])],
        ("https://outer/".to_string(), String::new()),
    );
    let blocks = vec![
        Block::Nested(
            "BulletList".to_string(),
            vec![vec![Block::Plain(vec![outer])], vec![Block::Para(vec![link(&["mention"], "https://item/")])]],
        ),
        Block::CodeBlock(Attr::empty(), "https://code/".to_string()),
        Block::RawBlock("html".to_string(), "<a class=mention>".to_string()),
        Block::Other("{}".to_string()),
    ];
    let scan = scan_links(&blocks);
    assert_eq!(scan.mentions, vec!["https://outer/", "https://inner/", "https://item/"]);
    assert_eq!(scan.post_type, PostType::Like);
}

#[test]
fn listed_mentions_follow_found_ones_and_template_is_kept() {
    let t = tree(
        vec![
            ("mentions", MetaValue::MetaList(vec![string("https://listed/"), MetaValue::MetaBool(true)])),
            ("template", string("custom")),
            ("post_type", string("Whatever")),
        ],
        vec![Block::Para(vec![link(&["mention"], "https://a/")])],
    );
    let found = find_links(t, "https://bridge/");
    assert_eq!(
        found.meta,
        vec![
            (
                "mentions".to_string(),
                MetaValue::MetaList(vec![
                    string("https://a/"),
                    string("https://bridge/"),
                    string("https://listed/"),
                    MetaValue::MetaBool(true),
                ])
            ),
            ("template".to_string(), string("custom")),
            ("post_type".to_string(), string("Note")),
        ]
    );
}

#[test]
fn mentions_that_are_no_list_are_replaced() {
    let t = tree(vec![("mentions", string("x"))], vec![]);
    assert_eq!(mentions_of(&find_links(t, BRIDGE)), vec!["https://fed.brid.gy/"]);
}

#[test]
fn mentioners_are_attached_to_the_front_matter() {
    let pages = vec!["https://p/".to_string(), "https://q/".to_string()];
    let fresh = attach_mentioners(tree(vec![], vec![]), &pages);
    assert_eq!(
        fresh.meta,
        vec![("mentioners".to_string(), MetaValue::MetaList(vec![string("https://p/"), string("https://q/")]))]
    );
    let listed = attach_mentioners(
        tree(vec![("mentioners", MetaValue::MetaList(vec![string("https://o/")]))], vec![]),
        &pages,
    );
    assert_eq!(
        listed.meta,
        vec![(
            "mentioners".to_string(),
            MetaValue::MetaList(vec![string("https://o/"), string("https://p/"), string("https://q/")])
        )]
    );
    let odd = attach_mentioners(tree(vec![("mentioners", string("x"))], vec![]), &pages);
    assert_eq!(odd.meta, vec![("mentioners".to_string(), string("x"))]);
}
