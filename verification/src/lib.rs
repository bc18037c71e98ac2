//! The document pipeline of a small publishing system: the tree model of a
//! converted document, the passes that rewrite it, the decision which documents
//! a synchronization pass rebuilds or purges, and the metadata query engine.

pub mod text;
pub mod date;
pub mod assoc;
pub mod tree;
pub mod meta;
pub mod query;
pub mod search_laws;
pub mod session;
pub mod params;
pub mod sync;
pub mod sync_laws;
pub mod links;
pub mod rewrite;
pub mod dynamic;
pub mod transclude;
pub mod fragment;
pub mod pass_laws;
pub mod frontmatter;
pub mod pipeline;
pub mod sorter;
pub mod tags;
pub mod guestbook;
pub mod login;
pub mod webmention;
