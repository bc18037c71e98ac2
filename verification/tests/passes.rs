use wolog::date::Date;
use wolog::dynamic::{
    apply_dynamic, dynamic_requests, outcome_of, sandbox_command, DynamicRequest, Outcome,
    FAILURE_TEXT, SCRIPT_MODE,
};
use wolog::fragment::{apply_search, search_requests, unseen, Rendering};
use wolog::meta::{ArticleMeta, PostType};
use wolog::pipeline::{run_postproc_filters, run_preproc_filters};
use wolog::rewrite::{list_tagged, replace_tagged, tagged_texts};
use wolog::session::ClientPersist;
use wolog::transclude::{
    apply_includes, include_block, include_requests, select_blocks, IncludeSpec, Inclusion,
    Resolved,
};
use wolog::tree::{blocks_plain_text, meta_get, plain_text, Attr, Block, Inline, MetaValue, Tree};

fn text(s: &str) -> Inline {
    Inline::Str(s.to_string())
}

fn para(s: &str) -> Block {
    Block::Para(vec![text(s)])
}

fn attr(id: &str, classes: &[&str], pairs: &[(&str, &str)]) -> Attr {
    Attr {
        id: id.to_string(),
        classes: classes.iter().map(|c| c.to_string()).collect(),
        attrs: pairs.iter().map(|(k, v)| (k.to_string(), v.to_string())).collect(),
    }
}

fn code(classes: &[&str], pairs: &[(&str, &str)], body: &str) -> Block {
    Block::CodeBlock(attr("", classes, pairs), body.to_string())
}

fn heading(level: i64, id: &str) -> Block {
    Block::Header(level, attr(id, &[], &[]), vec![text(id)])
}

fn strings(list: &[&str]) -> Vec<String> {
    list.iter().map(|s| s.to_string()).collect()
}

fn attribution(src: &str) -> Block {
    Block::LineBlock(vec![vec![Inline::Link(
        Attr::empty(),
        vec![text("(copied from another page)")],
        (format!("/post/{src}"), String::new()),
    )]])
}

/// Headings `A` (level 1), `B` (level 2, under `A`) and `C` (level 1), each with a paragraph.
fn sections() -> Vec<Block> {
    vec![
        para("intro"),
        heading(1, "A"),
        para("in a"),
        heading(2, "B"),
        para("in b"),
        heading(1, "C"),
        para("in c"),
    ]
}

#[test]
fn including_a_heading_takes_its_section_with_deeper_headings() {
    assert_eq!(
        select_blocks(&sections(), &strings(&["A"])),
        vec![heading(1, "A"), para("in a"), heading(2, "B"), para("in b")]
    );
}

#[test]
fn including_a_nested_heading_takes_only_its_own_blocks() {
    assert_eq!(select_blocks(&sections(), &strings(&["B"])), vec![heading(2, "B"), para("in b")]);
}

#[test]
fn including_without_headings_takes_the_whole_document() {
    assert_eq!(select_blocks(&sections(), &Vec::new()), sections());
}

#[test]
fn including_several_headings_and_unknown_ones() {
    assert_eq!(
        select_blocks(&sections(), &strings(&["A", "C"])),
        vec![
            heading(1, "A"),
            para("in a"),
            heading(2, "B"),
            para("in b"),
            heading(1, "C"),
            para("in c"),
        ]
    );
    assert_eq!(
        select_blocks(&sections(), &strings(&["C", "nothing"])),
        vec![heading(1, "C"), para("in c")]
    );
    assert!(select_blocks(&sections(), &strings(&["nothing"])).is_empty());
    // a heading of the same level ends the section
    let flat = vec![heading(2, "X"), para("x"), heading(2, "Y"), para("y"), heading(3, "X"), para("again")];
    assert_eq!(
        select_blocks(&flat, &strings(&["X"])),
        vec![heading(2, "X"), para("x"), heading(3, "X"), para("again")]
    );
}

#[test]
fn an_include_is_a_quotation_with_a_link_back() {
    let spec = IncludeSpec { src: "notes/a".to_string(), headings: strings(&["B"]) };
    assert_eq!(
        include_block(&spec, &sections()),
        Block::BlockQuote(vec![heading(2, "B"), para("in b"), attribution("notes/a")])
    );
    let whole = IncludeSpec { src: "x".to_string(), headings: Vec::new() };
    assert_eq!(
        include_block(&whole, &vec![para("p")]),
        Block::BlockQuote(vec![para("p"), attribution("x")])
    );
}

#[test]
fn includes_are_put_in_where_they_were_resolved() {
    let blocks = vec![
        code(&["include"], &[], "src: a"),
        para("between"),
        Block::BlockQuote(vec![code(&["include"], &[], "broken"), code(&["include", "x"], &[], "src: b")]),
        code(&["rust"], &[], "fn main() {}"),
        code(&["include"], &[], "src: late"),
    ];
    assert_eq!(include_requests(&blocks), vec!["src: a", "broken", "src: b", "src: late"]);
    let resolved = vec![
        Inclusion::Found(Resolved {
            spec: IncludeSpec { src: "a".to_string(), headings: Vec::new() },
            doc: vec![para("from a"), code(&["include"], &[], "src: nested")],
        }),
        Inclusion::Malformed,
        Inclusion::Found(Resolved {
            spec: IncludeSpec { src: "b".to_string(), headings: strings(&["H"]) },
            doc: vec![para("skipped"), heading(1, "H"), para("from b")],
        }),
        Inclusion::Missing,
    ];
    assert_eq!(
        apply_includes(&blocks, &resolved),
        vec![
            Block::BlockQuote(vec![
                para("from a"),
                code(&["include"], &[], "src: nested"),
                attribution("a"),
            ]),
            para("between"),
            Block::BlockQuote(vec![
                Block::RawBlock("html".to_string(), "Bad include block".to_string()),
                Block::BlockQuote(vec![heading(1, "H"), para("from b"), attribution("b")]),
            ]),
            code(&["rust"], &[], "fn main() {}"),
            code(&["include"], &[], "src: late"),
        ]
    );
    assert_eq!(apply_includes(&blocks, &Vec::new()), blocks);
}

#[test]
fn dynamic_blocks_ask_to_be_run() {
    let blocks = vec![
        para("p"),
        code(&["dynamic"], &[], "echo hi"),
        code(&["python"], &[("interpreter", "python3")], "print(1)"),
        Block::Nested(
            "Div".to_string(),
            vec![vec![code(
                &["x", "dynamic", "pandoc_ast"],
                &[("a", "b"), ("interpreter", "python3"), ("interpreter", "ruby")],
                "print(2)",
            )]],
        ),
    ];
    assert_eq!(
        dynamic_requests(&blocks),
        vec![
            DynamicRequest { interpreter: "bash".to_string(), source: "echo hi".to_string(), fragment: false },
            DynamicRequest { interpreter: "python3".to_string(), source: "print(2)".to_string(), fragment: true },
        ]
    );
    assert!(dynamic_requests(&vec![para("p")]).is_empty());
}

#[test]
fn sandbox_command_drops_privileges() {
    assert_eq!(
        sandbox_command("bash", "/tmp/script"),
        vec!["sudo", "-u", "nobody", "-g", "nogroup", "bash", "/tmp/script"]
    );
    assert_eq!(SCRIPT_MODE, 0o005);
}

#[test]
fn outcome_of_a_run() {
    let plain = DynamicRequest { interpreter: "bash".to_string(), source: String::new(), fragment: false };
    let frag = DynamicRequest { interpreter: "bash".to_string(), source: String::new(), fragment: true };
    assert_eq!(outcome_of(&plain, false, "out".to_string(), None), Outcome::Failed);
    assert_eq!(outcome_of(&frag, false, "out".to_string(), Some(para("p"))), Outcome::Failed);
    assert_eq!(outcome_of(&plain, true, "out".to_string(), None), Outcome::Output("out".to_string()));
    assert_eq!(
        outcome_of(&plain, true, "out".to_string(), Some(para("p"))),
        Outcome::Output("out".to_string())
    );
    assert_eq!(outcome_of(&frag, true, "out".to_string(), Some(para("p"))), Outcome::Fragment(para("p")));
    assert_eq!(outcome_of(&frag, true, "out".to_string(), None), Outcome::Failed);
}

#[test]
fn outcomes_take_the_place_of_the_code() {
    let blocks = vec![
        code(&["dynamic"], &[("k", "v")], "one"),
        Block::BlockQuote(vec![code(&["dynamic", "pandoc_ast"], &[], "two")]),
        code(&["static"], &[], "three"),
        code(&["dynamic"], &[], "four"),
        code(&["dynamic"], &[], "five"),
    ];
    let outcomes = vec![
        Outcome::Output("1\n".to_string()),
        Outcome::Fragment(Block::Para(vec![text("made"), Inline::Space, text("up")])),
        Outcome::Failed,
    ];
    assert_eq!(
        apply_dynamic(&blocks, &outcomes),
        vec![
            code(&["dynamic"], &[("k", "v")], "1\n"),
            Block::BlockQuote(vec![Block::Para(vec![text("made"), Inline::Space, text("up")])]),
            code(&["static"], &[], "three"),
            code(&["dynamic"], &[], "Code block failed to execute, check server logs."),
            code(&["dynamic"], &[], "five"),
        ]
    );
}

#[test]
fn a_failed_block_changes_no_other_block() {
    let blocks = vec![
        para("before"),
        code(&["dynamic"], &[], "exit 0"),
        heading(1, "h"),
        code(&["dynamic", "keep"], &[("interpreter", "sh")], "exit 1"),
        Block::BlockQuote(vec![para("quoted"), code(&["dynamic"], &[], "exit 0")]),
        para("after"),
    ];
    let all_well = vec![
        Outcome::Output("a".to_string()),
        Outcome::Output("b".to_string()),
        Outcome::Output("c".to_string()),
    ];
    let one_failed =
        vec![Outcome::Output("a".to_string()), Outcome::Failed, Outcome::Output("c".to_string())];
    let well = apply_dynamic(&blocks, &all_well);
    let failed = apply_dynamic(&blocks, &one_failed);
    assert_eq!(failed.len(), blocks.len());
    for i in [0usize, 1, 2, 4, 5] {
        assert_eq!(failed[i], well[i]);
    }
    for i in [0usize, 2, 5] {
        assert_eq!(failed[i], blocks[i]);
    }
    assert_eq!(failed[3], code(&["dynamic", "keep"], &[("interpreter", "sh")], FAILURE_TEXT));
    assert_eq!(FAILURE_TEXT, "Code block failed to execute, check server logs.");
}

#[test]
fn search_results_take_the_place_of_the_query() {
    let blocks = vec![
        code(&["search"], &[], "tags: [a]"),
        code(&["search"], &[], "]["),
        Block::Nested("BulletList".to_string(), vec![vec![code(&["search"], &[], "limit: 1")], vec![]]),
        code(&["search"], &[], "tags: [b]"),
        code(&["search"], &[], "tags: [c]"),
    ];
    assert_eq!(search_requests(&blocks), vec!["tags: [a]", "][", "limit: 1", "tags: [b]", "tags: [c]"]);
    let renderings = vec![
        Some(Rendering::Rendered("<ul></ul>".to_string())),
        Some(Rendering::Malformed),
        Some(Rendering::Failed("no template".to_string())),
        None,
    ];
    let raw = |s: &str| Block::RawBlock("html".to_string(), s.to_string());
    assert_eq!(
        apply_search(&blocks, &renderings),
        vec![
            raw("<ul></ul>"),
            raw("Bad search block"),
            Block::Nested(
                "BulletList".to_string(),
                vec![vec![raw("Search template failure: no template")], vec![]]
            ),
            code(&["search"], &[], "tags: [b]"),
            code(&["search"], &[], "tags: [c]"),
        ]
    );
}

#[test]
fn tagged_blocks_are_listed_and_replaced_in_document_order() {
    let blocks = vec![
        code(&["t"], &[], "0"),
        Block::BlockQuote(vec![
            code(&["t"], &[], "1"),
            Block::Nested("D".to_string(), vec![vec![code(&["t"], &[], "2")], vec![code(&["u"], &[], "x"), code(&["t"], &[], "3")]]),
        ]),
        code(&["t"], &[], "4"),
    ];
    assert_eq!(tagged_texts(&blocks, "t"), vec!["0", "1", "2", "3", "4"]);
    assert_eq!(list_tagged(&blocks, "u").len(), 1);
    let with = vec![None, Some(para("b")), None, Some(para("d")), Some(para("e")), Some(para("surplus"))];
    assert_eq!(
        replace_tagged(&blocks, "t", &with),
        vec![
            code(&["t"], &[], "0"),
            Block::BlockQuote(vec![
                para("b"),
                Block::Nested("D".to_string(), vec![vec![code(&["t"], &[], "2")], vec![code(&["u"], &[], "x"), para("d")]]),
            ]),
            para("e"),
        ]
    );
    assert_eq!(replace_tagged(&blocks, "none", &with), blocks);
}

fn seen_doc(updated: Date) -> ArticleMeta {
    ArticleMeta {
        title: "T".to_string(),
        post_type: PostType::Note,
        blurb: String::new(),
        tags: Vec::new(),
        template: "note".to_string(),
        toc: Vec::new(),
        exclude_from_rss: false,
        hidden: false,
        updated,
        created: updated,
        ready: true,
        always_rerender: false,
        extra: Vec::new(),
        mentioners: Vec::new(),
        mentions: Vec::new(),
    }
}

#[test]
fn documents_are_new_until_seen_after_their_update() {
    let day = |d: u32| Date::from_ymd(2024, 5, d).unwrap();
    let results = vec![
        ("never".to_string(), seen_doc(day(1))),
        ("before".to_string(), seen_doc(day(10))),
        ("same".to_string(), seen_doc(day(10))),
        ("after".to_string(), seen_doc(day(10))),
    ];
    let mut persist = ClientPersist::new();
    persist.mark_viewed("before", day(9));
    persist.mark_viewed("same", day(10));
    persist.mark_viewed("after", day(11));
    assert_eq!(unseen(&results, &persist), vec!["never", "before"]);
    persist.mark_viewed("before", day(12));
    assert_eq!(persist.viewed.len(), 3);
    assert_eq!(persist.last_seen("before"), Some(day(12)));
    assert_eq!(persist.last_seen("nothing"), None);
    assert_eq!(unseen(&results, &persist), vec!["never"]);
}

#[test]
fn passes_before_storing_find_links_and_put_outcomes_in() {
    let tree = Tree {
        meta: vec![("title".to_string(), MetaValue::MetaString("T".to_string()))],
        blocks: vec![code(&["dynamic"], &[], "date"), para("p")],
    };
    let done = run_preproc_filters(tree, "https://bridge/", &vec![Outcome::Output("today".to_string())]);
    assert_eq!(done.blocks, vec![code(&["dynamic"], &[], "today"), para("p")]);
    assert_eq!(meta_get(&done.meta, "post_type"), Some(&MetaValue::MetaString("Article".to_string())));
    assert_eq!(
        meta_get(&done.meta, "mentions"),
        Some(&MetaValue::MetaList(vec![MetaValue::MetaString("https://bridge/".to_string())]))
    );
}

#[test]
fn passes_on_reading_include_first_and_then_render_queries() {
    let tree = Tree {
        meta: vec![("k".to_string(), MetaValue::MetaBool(true))],
        blocks: vec![code(&["include"], &[], "src: a"), code(&["search"], &[], "own")],
    };
    let resolved = vec![Inclusion::Found(Resolved {
        spec: IncludeSpec { src: "a".to_string(), headings: Vec::new() },
        doc: vec![code(&["search"], &[], "included")],
    })];
    let renderings = vec![
        Some(Rendering::Rendered("first".to_string())),
        Some(Rendering::Rendered("second".to_string())),
    ];
    let shown = run_postproc_filters(tree, &resolved, &renderings);
    assert_eq!(shown.meta, vec![("k".to_string(), MetaValue::MetaBool(true))]);
    assert_eq!(
        shown.blocks,
        vec![
            Block::BlockQuote(vec![Block::RawBlock("html".to_string(), "first".to_string()), attribution("a")]),
            Block::RawBlock("html".to_string(), "second".to_string()),
        ]
    );
}

#[test]
fn plain_text_of_spans_and_blocks() {
    let spans = vec![
        text("a"),
        Inline::Space,
        text("b"),
        Inline::SoftBreak,
        Inline::LineBreak,
        Inline::Styled("Emph".to_string(), vec![text("hidden")]),
        Inline::Other("x".to_string()),
        text("c"),
    ];
    assert_eq!(plain_text(&spans), "a b\n\nc");
    let blocks = vec![
        Block::Para(vec![text("p")]),
        Block::Plain(vec![text("q")]),
        Block::LineBlock(vec![vec![text("l1")], vec![text("l2")]]),
        Block::RawBlock("html".to_string(), "<b>".to_string()),
        Block::BlockQuote(vec![para("x"), Block::BlockQuote(vec![para("y")])]),
        Block::CodeBlock(Attr::empty(), "code".to_string()),
        Block::Header(1, Attr::empty(), vec![text("h")]),
    ];
    assert_eq!(blocks_plain_text(&blocks), "pql1\nl2\n<b>x\ny\n\n");
}

#[test]
fn copies_are_equal_to_what_was_copied() {
    let block = Block::BlockQuote(vec![
        Block::Header(2, attr("id", &["c"], &[("k", "v")]), vec![text("h")]),
        Block::Nested("L".to_string(), vec![vec![para("x")], vec![]]),
        Block::LineBlock(vec![vec![Inline::Link(attr("", &[], &[]), vec![text("t")], ("u".to_string(), "t".to_string()))]]),
    ]);
    assert_eq!(block.duplicate(), block);
    let value = MetaValue::MetaMap(vec![(
        "k".to_string(),
        MetaValue::MetaList(vec![MetaValue::MetaBool(true), MetaValue::MetaString("s".to_string())]),
    )]);
    assert_eq!(value.duplicate(), value);
    let a = attr("i", &["dynamic"], &[("interpreter", "sh"), ("interpreter", "zsh")]);
    assert!(a.has_class("dynamic"));
    assert!(!a.has_class("dyn"));
    assert_eq!(a.value_of("interpreter"), Some(&"sh".to_string()));
    assert_eq!(a.value_of("none"), None);
}
