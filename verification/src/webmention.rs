//! Mentions that other sites report: which reports are accepted, and what is
//! done about the page that is said to mention a document.

use crate::text::{contains_text, has_substring, strip_suffix_all, trim_end_matches};
use vstd::prelude::*;
use vstd::string::*;

verus! {

/// What the caller found of an address: whether it could be read, whether it
/// is absolute, its host and its path.
#[derive(Debug, PartialEq, Eq)]
pub struct Address {
    pub absolute: bool,
    pub host: Option<String>,
    pub path: String,
}

/// Why a report is not accepted.
#[derive(Clone, Copy, Debug, PartialEq, Eq, Structural)]
pub enum Rejection {
    BadSource,
    RelativeSource,
    BadTarget,
    RelativeTarget,
    ForeignTarget,
    NotAPost,
    Unreachable,
    Gone,
    NotText,
    NoMention,
    StoreFailed,
}

impl Rejection {
    /// The status that the report is answered with.
    pub fn status(&self) -> (r: u16)
        ensures
            r == if *self == Rejection::StoreFailed {
                500u16
            } else {
                400u16
            },
    {
        match self {
            Rejection::StoreFailed => 500,
            _ => 400,
        }
    }

    /// The text that the report is answered with.
    pub fn message(&self) -> (r: &'static str)
        ensures
            r@ == match self {
                Rejection::BadSource => "Bad source URL"@,
                Rejection::RelativeSource => "Source URL should be absolute"@,
                Rejection::BadTarget => "Bad target URL"@,
                Rejection::RelativeTarget => "Target URL should be absolute"@,
                Rejection::ForeignTarget => "Target URL should be one of our pages"@,
                Rejection::NotAPost => "You can only mention posts"@,
                Rejection::Unreachable => "Couldn't fetch the mentioning page"@,
                Rejection::Gone => "The mentioning page is missing? (if we had it before, we've done our best to delete it)"@,
                Rejection::NotText => "The mentioning page doesn't seem to be UTF-8?"@,
                Rejection::NoMention => "The page doesn't mention us like you said it would? (if we had it before, we've deleted it)"@,
                Rejection::StoreFailed => "Database error"@,
            },
    {
        match self {
            Rejection::BadSource => "Bad source URL",
            Rejection::RelativeSource => "Source URL should be absolute",
            Rejection::BadTarget => "Bad target URL",
            Rejection::RelativeTarget => "Target URL should be absolute",
            Rejection::ForeignTarget => "Target URL should be one of our pages",
            Rejection::NotAPost => "You can only mention posts",
            Rejection::Unreachable => "Couldn't fetch the mentioning page",
            Rejection::Gone =>
                "The mentioning page is missing? (if we had it before, we've done our best to delete it)",
            Rejection::NotText => "The mentioning page doesn't seem to be UTF-8?",
            Rejection::NoMention =>
                "The page doesn't mention us like you said it would? (if we had it before, we've deleted it)",
            Rejection::StoreFailed => "Database error",
        }
    }
}

/// What is answered to a report that is accepted.
pub const ACCEPTED_TEXT: &'static str = "Looks OK! The webmention should be registered now.";

/// How long the address of the posts is: `/post/`.
pub const POST_PREFIX_LEN: usize = 6;

/// The path of the document that a path of an address names: the path without
/// `/` and without `.md` at its end, and without its first six characters, the
/// place of `/post/`. A shorter path names none.
pub open spec fn mentioned_path(path: Seq<char>) -> Option<Seq<char>> {
    let trimmed = strip_suffix_all(strip_suffix_all(path, "/"@), ".md"@);
    if trimmed.len() >= POST_PREFIX_LEN {
        Some(trimmed.skip(POST_PREFIX_LEN as int))
    } else {
        None
    }
}

/// The path of the document that a path of an address names.
pub fn post_path(path: &str) -> (r: Option<String>)
    ensures
        match r {
            Some(p) => mentioned_path(path@) == Some(p@),
            None => mentioned_path(path@) is None,
        },
{
    let without_slash = trim_end_matches(path, "/");
    let trimmed = trim_end_matches(without_slash.as_str(), ".md");
    let len = trimmed.as_str().unicode_len();
    if len >= POST_PREFIX_LEN {
        let rest = trimmed.as_str().substring_char(POST_PREFIX_LEN, len).to_owned();
        assert(rest@ =~= trimmed@.skip(POST_PREFIX_LEN as int));
        Some(rest)
    } else {
        None
    }
}

/// Whether two hosts are the same: both absent, or both present and equal.
pub open spec fn same_host(a: Option<String>, b: Option<String>) -> bool {
    match (a, b) {
        (Some(x), Some(y)) => x@ == y@,
        (None, None) => true,
        _ => false,
    }
}

/// The document that a report is about, if the report is accepted so far: both
/// addresses must be readable and absolute, and the target must be a post of
/// this site.
pub fn check_report(source: &Option<Address>, target: &Option<Address>, own_host: &Option<String>) -> (r:
    Result<String, Rejection>)
    ensures
        match r {
            Ok(p) => {
                &&& source matches Some(s)
                &&& s.absolute
                &&& target matches Some(t)
                &&& t.absolute
                &&& same_host(t.host, *own_host)
                &&& mentioned_path(t.path@) == Some(p@)
            },
            Err(e) => match *source {
                None => e == Rejection::BadSource,
                Some(s) => if !s.absolute {
                    e == Rejection::RelativeSource
                } else {
                    match *target {
                        None => e == Rejection::BadTarget,
                        Some(t) => if !t.absolute {
                            e == Rejection::RelativeTarget
                        } else if !same_host(t.host, *own_host) {
                            e == Rejection::ForeignTarget
                        } else {
                            e == Rejection::NotAPost && mentioned_path(t.path@) is None
                        },
                    }
                },
            },
        },
{
    let s = match source {
        Some(s) => s,
        None => {
            return Err(Rejection::BadSource);
        },
    };
    if !s.absolute {
        return Err(Rejection::RelativeSource);
    }
    let t = match target {
        Some(t) => t,
        None => {
            return Err(Rejection::BadTarget);
        },
    };
    if !t.absolute {
        return Err(Rejection::RelativeTarget);
    }
    let same = match (&t.host, own_host) {
        (Some(x), Some(y)) => *x == *y,
        (None, None) => true,
        _ => false,
    };
    if !same {
        return Err(Rejection::ForeignTarget);
    }
    match post_path(t.path.as_str()) {
        Some(p) => Ok(p),
        None => Err(Rejection::NotAPost),
    }
}

/// What came of fetching the page that is said to mention a document.
#[derive(Debug, PartialEq, Eq)]
pub enum Fetched {
    /// The page could not be fetched.
    Unreachable,
    /// The page was fetched with this status; the text is absent where the
    /// page is no text.
    Page(u16, Option<String>),
}

/// What is done about a report.
#[derive(Clone, Copy, Debug, PartialEq, Eq, Structural)]
pub enum Verdict {
    /// The mention is stored.
    Store,
    /// The mention is taken out of the store, and the report is turned down.
    Remove(Rejection),
    /// The report is turned down.
    Reject(Rejection),
}

/// Judges the page that is said to mention `target`: a page that is gone or
/// does not hold the address of the target takes the mention out of the store.
pub fn judge(target: &str, fetched: &Fetched) -> (r: Verdict)
    ensures
        r == match *fetched {
            Fetched::Unreachable => Verdict::Reject(Rejection::Unreachable),
            Fetched::Page(status, text) => if status == 404 || status == 410 {
                Verdict::Remove(Rejection::Gone)
            } else {
                match text {
                    None => Verdict::Reject(Rejection::NotText),
                    Some(body) => if has_substring(body@, target@) {
                        Verdict::Store
                    } else {
                        Verdict::Remove(Rejection::NoMention)
                    },
                }
            },
        },
{
    match fetched {
        Fetched::Unreachable => Verdict::Reject(Rejection::Unreachable),
        Fetched::Page(status, text) => {
            if *status == 404 || *status == 410 {
                Verdict::Remove(Rejection::Gone)
            } else {
                match text {
                    None => Verdict::Reject(Rejection::NotText),
                    Some(body) => if contains_text(body.as_str(), target) {
                        Verdict::Store
                    } else {
                        Verdict::Remove(Rejection::NoMention)
                    },
                }
            }
        },
    }
}

} // verus!
