//! The guestbook of a document: who may sign it, and what is answered to those
//! who may not.

use crate::assoc::{find_key, keys_of, position};
use crate::session::{Identities, IdentityView};
use crate::text::{contains_string, views};
use vstd::prelude::*;
use vstd::string::*;

verus! {

/// Why a request to the guestbook is turned down.
#[derive(Clone, Copy, Debug, PartialEq, Eq, Structural)]
pub enum GuestbookError {
    /// The store failed.
    DbError,
    /// The visitor may not sign.
    YouAreBanned,
    /// The visitor is not logged in with the identity named.
    NoIdentity,
    /// There is no such document.
    NotFound,
}

impl GuestbookError {
    /// The status that the error is answered with. A banned visitor is told of
    /// a failure of the store.
    pub fn status(&self) -> (r: u16)
        ensures
            r == match self {
                GuestbookError::DbError => 500u16,
                GuestbookError::YouAreBanned => 500u16,
                GuestbookError::NoIdentity => 401u16,
                GuestbookError::NotFound => 401u16,
            },
    {
        match self {
            GuestbookError::DbError => 500,
            GuestbookError::YouAreBanned => 500,
            GuestbookError::NoIdentity => 401,
            GuestbookError::NotFound => 401,
        }
    }

    /// The text that the error is answered with.
    pub fn message(&self) -> (r: &'static str)
        ensures
            r@ == match self {
                GuestbookError::DbError => "Database error"@,
                GuestbookError::YouAreBanned => "Database error"@,
                GuestbookError::NoIdentity => "You aren't logged in with that identity"@,
                GuestbookError::NotFound => "Not found"@,
            },
    {
        match self {
            GuestbookError::DbError => "Database error",
            GuestbookError::YouAreBanned => "Database error",
            GuestbookError::NoIdentity => "You aren't logged in with that identity",
            GuestbookError::NotFound => "Not found",
        }
    }
}

/// What is done to the guestbook.
#[derive(Debug, PartialEq, Eq)]
pub enum Signing {
    /// The subject of the provider signs.
    Sign(String, String),
    /// The signature of the subject of the provider is taken back.
    Unsign(String, String),
}

/// The view of a [`Signing`].
pub enum SigningView {
    Sign(Seq<char>, Seq<char>),
    Unsign(Seq<char>, Seq<char>),
}

impl View for Signing {
    type V = SigningView;

    open spec fn view(&self) -> SigningView {
        match self {
            Signing::Sign(p, s) => SigningView::Sign(p@, s@),
            Signing::Unsign(p, s) => SigningView::Unsign(p@, s@),
        }
    }
}

/// The subjects that may not sign, by provider.
pub open spec fn bans_view(bans: Seq<(String, Vec<String>)>) -> Seq<(Seq<char>, Seq<Seq<char>>)> {
    Seq::new(bans.len(), |i: int| (bans[i].0@, views(bans[i].1@)))
}

/// The providers of a list of bans.
pub open spec fn ban_providers(bans: Seq<(Seq<char>, Seq<Seq<char>>)>) -> Seq<Seq<char>> {
    Seq::new(bans.len(), |i: int| bans[i].0)
}

/// Whether the subject of the provider may not sign: the first list of the
/// provider holds the subject.
pub open spec fn banned(
    bans: Seq<(Seq<char>, Seq<Seq<char>>)>,
    provider: Seq<char>,
    subject: Seq<char>,
) -> bool {
    match find_key(ban_providers(bans), provider) {
        Some(i) => bans[i].1.contains(subject),
        None => false,
    }
}

/// Whether the subject of the provider may not sign.
pub fn is_banned(bans: &Vec<(String, Vec<String>)>, provider: &str, subject: &str) -> (r: bool)
    ensures
        r == banned(bans_view(bans@), provider@, subject@),
{
    assert(ban_providers(bans_view(bans@)) =~= keys_of(bans@));
    match position(bans, provider) {
        Some(i) => contains_string(&bans[i].1, subject),
        None => false,
    }
}

/// The providers of the identities of a visitor.
pub open spec fn identity_providers(identities: Seq<(Seq<char>, IdentityView)>) -> Seq<Seq<char>> {
    Seq::new(identities.len(), |i: int| identities[i].0)
}

/// What a request to sign or to take a signature back leads to: the visitor
/// must be logged in with the identity named, and to sign must not be banned.
pub open spec fn signing_of(
    identities: Seq<(Seq<char>, IdentityView)>,
    bans: Seq<(Seq<char>, Seq<Seq<char>>)>,
    provider: Seq<char>,
    do_sign: bool,
) -> Result<SigningView, GuestbookError> {
    match find_key(identity_providers(identities), provider) {
        None => Err(GuestbookError::NoIdentity),
        Some(i) => {
            let subject = identities[i].1.sub;
            if !do_sign {
                Ok(SigningView::Unsign(provider, subject))
            } else if banned(bans, provider, subject) {
                Err(GuestbookError::YouAreBanned)
            } else {
                Ok(SigningView::Sign(provider, subject))
            }
        },
    }
}

/// Decides a request to sign the guestbook, or to take a signature back, with
/// the identity that the visitor has with `provider`.
pub fn sign(
    identities: &Identities,
    bans: &Vec<(String, Vec<String>)>,
    provider: &str,
    do_sign: bool,
) -> (r: Result<Signing, GuestbookError>)
    ensures
        match r {
            Ok(s) => signing_of(identities@, bans_view(bans@), provider@, do_sign) == Ok::<
                SigningView,
                GuestbookError,
            >(s@),
            Err(e) => signing_of(identities@, bans_view(bans@), provider@, do_sign) == Err::<
                SigningView,
                GuestbookError,
            >(e),
        },
{
    assert(identity_providers(identities@) =~= keys_of(identities.0@));
    match position(&identities.0, provider) {
        None => Err(GuestbookError::NoIdentity),
        Some(i) => {
            let subject = &identities.0[i].1.sub;
            assert(identities@[i as int].1.sub == subject@);
            if !do_sign {
                Ok(Signing::Unsign(provider.to_owned(), subject.clone()))
            } else if is_banned(bans, provider, subject.as_str()) {
                Err(GuestbookError::YouAreBanned)
            } else {
                Ok(Signing::Sign(provider.to_owned(), subject.clone()))
            }
        },
    }
}

/// The providers among `answers` for which the answer is yes, in their order.
pub open spec fn affirmed(answers: Seq<(String, bool)>) -> Seq<Seq<char>>
    decreases answers.len(),
{
    if answers.len() == 0 {
        Seq::empty()
    } else if answers.last().1 {
        affirmed(answers.drop_last()).push(answers.last().0@)
    } else {
        affirmed(answers.drop_last())
    }
}

/// The providers with whose identity the visitor has signed, from what the
/// store answered for each.
pub fn signed_providers(answers: &Vec<(String, bool)>) -> (r: Vec<String>)
    ensures
        views(r@) == affirmed(answers@),
{
    let mut out: Vec<String> = Vec::new();
    let mut i: usize = 0;
    assert(answers@.take(0) =~= Seq::empty());
    assert(views(out@) =~= Seq::empty());
    while i < answers.len()
        invariant
            i <= answers.len(),
            views(out@) == affirmed(answers@.take(i as int)),
        decreases answers.len() - i,
    {
        proof {
            assert(answers@.take(i + 1).drop_last() =~= answers@.take(i as int));
            assert(answers@.take(i + 1).last() == answers@[i as int]);
        }
        if answers[i].1 {
            let ghost before = views(out@);
            out.push(answers[i].0.clone());
            assert(views(out@) =~= before.push(answers@[i as int].0@));
        }
        i += 1;
    }
    assert(answers@.take(i as int) =~= answers@);
    out
}

} // verus!
