//! Document metadata: the post type, the table of contents and the record of
//! fields that is kept beside each stored document.

use crate::date::{Date, Ymd};
use crate::text::views;
use crate::tree::{entries_view, MetaValue, MetaValueView};
use vstd::prelude::*;
use vstd::string::*;

verus! {

/// What kind of post a document is.
#[derive(Clone, Copy, Debug, PartialEq, Eq, Structural)]
pub enum PostType {
    Note,
    Article,
    Like,
    Repost,
    Reply,
}

impl Default for PostType {
    fn default() -> (r: PostType)
        ensures
            r == PostType::Note,
    {
        PostType::Note
    }
}

impl PostType {
    /// The name under which the type is written.
    pub open spec fn name(self) -> Seq<char> {
        match self {
            PostType::Note => "Note"@,
            PostType::Article => "Article"@,
            PostType::Like => "Like"@,
            PostType::Repost => "Repost"@,
            PostType::Reply => "Reply"@,
        }
    }

    /// The type that a name denotes.
    pub open spec fn named(name: Seq<char>) -> Option<PostType> {
        if name == "Note"@ {
            Some(PostType::Note)
        } else if name == "Article"@ {
            Some(PostType::Article)
        } else if name == "Like"@ {
            Some(PostType::Like)
        } else if name == "Repost"@ {
            Some(PostType::Repost)
        } else if name == "Reply"@ {
            Some(PostType::Reply)
        } else {
            None
        }
    }

    /// The template that a document of this type is rendered with when it names none.
    pub open spec fn template(self) -> Seq<char> {
        match self {
            PostType::Note => "note"@,
            PostType::Article => "article"@,
            PostType::Like => "like"@,
            PostType::Repost => "repost"@,
            PostType::Reply => "reply"@,
        }
    }

    /// The name under which the type is written.
    pub fn as_str(&self) -> (r: &'static str)
        ensures
            r@ == self.name(),
    {
        match self {
            PostType::Note => "Note",
            PostType::Article => "Article",
            PostType::Like => "Like",
            PostType::Repost => "Repost",
            PostType::Reply => "Reply",
        }
    }

    /// The type that a name denotes.
    pub fn from_name(name: &str) -> (r: Option<PostType>)
        ensures
            r == PostType::named(name@),
    {
        let owned = name.to_owned();
        if owned == "Note".to_owned() {
            Some(PostType::Note)
        } else if owned == "Article".to_owned() {
            Some(PostType::Article)
        } else if owned == "Like".to_owned() {
            Some(PostType::Like)
        } else if owned == "Repost".to_owned() {
            Some(PostType::Repost)
        } else if owned == "Reply".to_owned() {
            Some(PostType::Reply)
        } else {
            None
        }
    }

    /// The template that a document of this type is rendered with when it names none.
    pub fn template_name(&self) -> (r: &'static str)
        ensures
            r@ == self.template(),
    {
        match self {
            PostType::Note => "note",
            PostType::Article => "article",
            PostType::Like => "like",
            PostType::Repost => "repost",
            PostType::Reply => "reply",
        }
    }

    /// A name denotes the type that it is the name of.
    pub proof fn lemma_name_round_trip(self)
        ensures
            PostType::named(self.name()) == Some(self),
    {
        reveal_strlit("Note");
        reveal_strlit("Article");
        reveal_strlit("Like");
        reveal_strlit("Repost");
        reveal_strlit("Reply");
        assert("Note"@.len() == 4 && "Note"@[0] == 'N');
        assert("Article"@.len() == 7);
        assert("Like"@.len() == 4 && "Like"@[0] == 'L');
        assert("Repost"@.len() == 6);
        assert("Reply"@.len() == 5);
    }
}

/// An entry of a table of contents.
#[derive(Debug, PartialEq, Eq)]
pub enum Toc {
    /// Plain text.
    Text(String),
    /// A heading with the headings below it.
    Heading { label: String, anchor: String, subheadings: Vec<Toc> },
}

/// The view of a [`Toc`].
pub enum TocView {
    Text(Seq<char>),
    Heading { label: Seq<char>, anchor: Seq<char>, subheadings: Seq<TocView> },
}

impl Toc {
    /// The entry with its texts as sequences of characters.
    pub open spec fn view(&self) -> TocView
        decreases self,
    {
        match self {
            Toc::Text(text) => TocView::Text(text@),
            Toc::Heading { label, anchor, subheadings } => TocView::Heading {
                label: label@,
                anchor: anchor@,
                subheadings: tocs_view(subheadings@),
            },
        }
    }
}

/// The views of a sequence of entries.
pub open spec fn tocs_view(s: Seq<Toc>) -> Seq<TocView>
    decreases s,
{
    Seq::new(
        s.len(),
        |i: int|
            if 0 <= i < s.len() {
                s[i].view()
            } else {
                TocView::Text(Seq::empty())
            },
    )
}

impl TocView {
    /// The entry as a list item of markup.
    pub open spec fn html(self) -> Seq<char>
        decreases self,
    {
        match self {
            TocView::Text(text) => "<li>"@ + text + "</li>"@,
            TocView::Heading { label, anchor, subheadings } => {
                let link = "<li><a href=\"#"@ + anchor + "\">"@ + label + "</a>"@;
                if subheadings.len() == 0 {
                    link + "</li>"@
                } else {
                    link + "<ul>"@ + tocs_html(subheadings) + "</ul></li>"@
                }
            },
        }
    }
}

/// The list items of a sequence of entries, one after the other.
pub open spec fn tocs_html(s: Seq<TocView>) -> Seq<char>
    decreases s,
{
    if s.len() == 0 {
        Seq::empty()
    } else {
        tocs_html(s.drop_last()) + s.last().html()
    }
}

impl Toc {
    fn push_html(&self, out: &mut String)
        ensures
            final(out)@ == old(out)@ + self.view().html(),
        decreases self,
    {
        match self {
            Toc::Text(text) => {
                out.append("<li>");
                out.append(text.as_str());
                out.append("</li>");
                assert(out@ =~= old(out)@ + self.view().html());
            },
            Toc::Heading { label, anchor, subheadings } => {
                out.append("<li><a href=\"#");
                out.append(anchor.as_str());
                out.append("\">");
                out.append(label.as_str());
                out.append("</a>");
                let ghost link = "<li><a href=\"#"@ + anchor@ + "\">"@ + label@ + "</a>"@;
                assert(out@ =~= old(out)@ + link);
                if subheadings.len() == 0 {
                    out.append("</li>");
                    assert(tocs_view(subheadings@).len() == 0);
                    assert(out@ =~= old(out)@ + self.view().html());
                } else {
                    out.append("<ul>");
                    push_all_html(subheadings, out);
                    out.append("</ul></li>");
                    assert(tocs_view(subheadings@).len() != 0);
                    assert(out@ =~= old(out)@ + self.view().html());
                }
            },
        }
    }

    /// The entry as a list item of markup.
    pub fn to_html(&self) -> (r: String)
        ensures
            r@ == self.view().html(),
    {
        let mut out = String::new();
        self.push_html(&mut out);
        out
    }
}

fn push_all_html(entries: &Vec<Toc>, out: &mut String)
    ensures
        final(out)@ == old(out)@ + tocs_html(tocs_view(entries@)),
    decreases entries,
{
    let ghost all = tocs_view(entries@);
    let mut i: usize = 0;
    assert(all.take(0) =~= Seq::empty());
    while i < entries.len()
        invariant
            i <= entries.len(),
            all == tocs_view(entries@),
            out@ == old(out)@ + tocs_html(all.take(i as int)),
        decreases entries.len() - i,
    {
        let ghost before = out@;
        entries[i].push_html(out);
        proof {
            assert(all.take(i + 1).drop_last() =~= all.take(i as int));
            assert(all.take(i + 1).last() == entries[i as int].view());
            assert(out@ =~= old(out)@ + tocs_html(all.take(i + 1)));
        }
        i += 1;
    }
    assert(all.take(i as int) =~= all);
}

/// A table of contents as the list items of its entries, one after the other.
pub fn toc_html(entries: &Vec<Toc>) -> (r: String)
    ensures
        r@ == tocs_html(tocs_view(entries@)),
{
    let mut out = String::new();
    push_all_html(entries, &mut out);
    out
}

/// The metadata of a document.
#[derive(Debug, PartialEq, Eq)]
pub struct ArticleMeta {
    pub title: String,
    pub post_type: PostType,
    pub blurb: String,
    pub tags: Vec<String>,
    pub template: String,
    pub toc: Vec<Toc>,
    pub exclude_from_rss: bool,
    pub hidden: bool,
    pub updated: Date,
    pub created: Date,
    pub ready: bool,
    pub always_rerender: bool,
    /// The front-matter entries that none of the other fields took.
    pub extra: Vec<(String, MetaValue)>,
    pub mentioners: Vec<String>,
    pub mentions: Vec<String>,
}

/// The view of an [`ArticleMeta`].
pub struct ArticleMetaView {
    pub title: Seq<char>,
    pub post_type: PostType,
    pub blurb: Seq<char>,
    pub tags: Seq<Seq<char>>,
    pub template: Seq<char>,
    pub toc: Seq<TocView>,
    pub exclude_from_rss: bool,
    pub hidden: bool,
    pub updated: Ymd,
    pub created: Ymd,
    pub ready: bool,
    pub always_rerender: bool,
    pub extra: Seq<(Seq<char>, MetaValueView)>,
    pub mentioners: Seq<Seq<char>>,
    pub mentions: Seq<Seq<char>>,
}

impl View for ArticleMeta {
    type V = ArticleMetaView;

    open spec fn view(&self) -> ArticleMetaView {
        ArticleMetaView {
            title: self.title@,
            post_type: self.post_type,
            blurb: self.blurb@,
            tags: views(self.tags@),
            template: self.template@,
            toc: tocs_view(self.toc@),
            exclude_from_rss: self.exclude_from_rss,
            hidden: self.hidden,
            updated: self.updated@,
            created: self.created@,
            ready: self.ready,
            always_rerender: self.always_rerender,
            extra: entries_view(self.extra@),
            mentioners: views(self.mentioners@),
            mentions: views(self.mentions@),
        }
    }
}

} // verus!
