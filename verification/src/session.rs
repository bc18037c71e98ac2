//! What a visitor's cookies hold, and the identities they stand for.

use crate::assoc::{find_key, keys_of, lemma_find_key, position};
use crate::date::{Date, Ymd};
use crate::text::pair_views;
use vstd::prelude::*;
use vstd::string::*;

verus! {

/// The identities that a visitor has logged in with: provider and subject.
#[derive(Debug, PartialEq, Eq)]
pub struct SecurePersist {
    pub identities: Vec<(String, String)>,
}

impl View for SecurePersist {
    type V = Seq<(Seq<char>, Seq<char>)>;

    open spec fn view(&self) -> Seq<(Seq<char>, Seq<char>)> {
        pair_views(self.identities@)
    }
}

/// The providers of a list of identities.
pub open spec fn providers(s: Seq<(Seq<char>, Seq<char>)>) -> Seq<Seq<char>> {
    Seq::new(s.len(), |i: int| s[i].0)
}

/// The subject that the list holds for `provider`: that of its first entry.
pub open spec fn subject_of(s: Seq<(Seq<char>, Seq<char>)>, provider: Seq<char>) -> Option<
    Seq<char>,
> {
    match find_key(providers(s), provider) {
        Some(i) => Some(s[i].1),
        None => None,
    }
}

/// The list with `subject` for `provider`: in place of the first entry of this
/// provider, or at the end where there is none.
pub open spec fn with_identity(
    s: Seq<(Seq<char>, Seq<char>)>,
    provider: Seq<char>,
    subject: Seq<char>,
) -> Seq<(Seq<char>, Seq<char>)> {
    match find_key(providers(s), provider) {
        Some(i) => s.update(i, (provider, subject)),
        None => s.push((provider, subject)),
    }
}

impl SecurePersist {
    /// A visitor who has logged in nowhere.
    pub fn new() -> (r: SecurePersist)
        ensures
            r@ == Seq::<(Seq<char>, Seq<char>)>::empty(),
    {
        let r = SecurePersist { identities: Vec::new() };
        assert(r@ =~= Seq::empty());
        r
    }

    /// Forgets every identity and says how many there were.
    pub fn clear(&mut self) -> (r: usize)
        ensures
            r == old(self)@.len(),
            final(self)@ == Seq::<(Seq<char>, Seq<char>)>::empty(),
    {
        let n = self.identities.len();
        self.identities.clear();
        assert(self@ =~= Seq::empty());
        n
    }

    /// The subject under which the visitor is known to `provider`.
    pub fn subject(&self, provider: &str) -> (r: Option<&String>)
        ensures
            match r {
                Some(s) => subject_of(self@, provider@) == Some(s@),
                None => subject_of(self@, provider@) is None,
            },
    {
        assert(providers(self@) =~= keys_of(self.identities@));
        match position(&self.identities, provider) {
            Some(i) => Some(&self.identities[i].1),
            None => None,
        }
    }

    /// Records that the visitor is known to `provider` as `subject`.
    pub fn remember(&mut self, provider: &str, subject: &str)
        ensures
            final(self)@ == with_identity(old(self)@, provider@, subject@),
    {
        assert(providers(self@) =~= keys_of(self.identities@));
        match position(&self.identities, provider) {
            Some(i) => {
                self.identities.set(i, (provider.to_owned(), subject.to_owned()));
                assert(self@ =~= old(self)@.update(i as int, (provider@, subject@)));
            },
            None => {
                self.identities.push((provider.to_owned(), subject.to_owned()));
                assert(self@ =~= old(self)@.push((provider@, subject@)));
            },
        }
    }
}

/// A person as an identity provider describes them.
#[derive(Debug, PartialEq, Eq)]
pub struct Identity {
    pub sub: String,
    pub email: String,
    pub name: String,
}

/// The view of an [`Identity`].
pub struct IdentityView {
    pub sub: Seq<char>,
    pub email: Seq<char>,
    pub name: Seq<char>,
}

impl View for Identity {
    type V = IdentityView;

    open spec fn view(&self) -> IdentityView {
        IdentityView { sub: self.sub@, email: self.email@, name: self.name@ }
    }
}

/// The identities of a visitor that the store knows, by provider.
#[derive(Debug, PartialEq, Eq)]
pub struct Identities(pub Vec<(String, Identity)>);

impl View for Identities {
    type V = Seq<(Seq<char>, IdentityView)>;

    open spec fn view(&self) -> Seq<(Seq<char>, IdentityView)> {
        Seq::new(self.0@.len(), |i: int| (self.0@[i].0@, self.0@[i].1@))
    }
}

/// What the store answered when asked for the identity of one provider.
pub open spec fn answers_view(s: Seq<(String, Option<Identity>)>) -> Seq<
    (Seq<char>, Option<IdentityView>),
> {
    Seq::new(
        s.len(),
        |i: int|
            (
                s[i].0@,
                match s[i].1 {
                    Some(id) => Some(id@),
                    None => None,
                },
            ),
    )
}

/// The identities among the answers: each provider for which the store knew one.
pub open spec fn known(answers: Seq<(Seq<char>, Option<IdentityView>)>) -> Seq<
    (Seq<char>, IdentityView),
>
    decreases answers.len(),
{
    if answers.len() == 0 {
        Seq::empty()
    } else {
        let rest = known(answers.drop_last());
        match answers.last().1 {
            Some(id) => rest.push((answers.last().0, id)),
            None => rest,
        }
    }
}

/// The providers for which the store knew no identity.
pub open spec fn unknown(answers: Seq<(Seq<char>, Option<IdentityView>)>) -> Set<Seq<char>> {
    Set::new(
        |p: Seq<char>|
            exists|i: int| 0 <= i < answers.len() && answers[i].0 == p && answers[i].1 is None,
    )
}

/// The entries of `s` whose provider is not in `gone`.
pub open spec fn without(s: Seq<(Seq<char>, Seq<char>)>, gone: Set<Seq<char>>) -> Seq<
    (Seq<char>, Seq<char>),
> {
    s.filter(|e: (Seq<char>, Seq<char>)| !gone.contains(e.0))
}

impl Identities {
    /// The identity that the visitor has with `provider`.
    pub fn get(&self, provider: &str) -> (r: Option<&Identity>)
        ensures
            match r {
                Some(id) => exists|i: int|
                    0 <= i < self@.len() && self@[i] == (provider@, id@) && forall|j: int|
                        0 <= j < i ==> self@[j].0 != provider@,
                None => forall|i: int| 0 <= i < self@.len() ==> self@[i].0 != provider@,
            },
    {
        match position(&self.0, provider) {
            Some(i) => {
                proof {
                    lemma_find_key(keys_of(self.0@), provider@);
                    assert(self@[i as int] == (provider@, self.0@[i as int].1@));
                    assert forall|j: int| 0 <= j < i implies self@[j].0 != provider@ by {
                        assert(keys_of(self.0@)[j] == self@[j].0);
                    }
                }
                Some(&self.0[i].1)
            },
            None => {
                proof {
                    lemma_find_key(keys_of(self.0@), provider@);
                    assert forall|i: int| 0 <= i < self@.len() implies self@[i].0
                        != provider@ by {
                        assert(keys_of(self.0@)[i] == self@[i].0);
                    }
                }
                None
            },
        }
    }
}

fn is_unknown(answers: &Vec<(String, Option<Identity>)>, provider: &String) -> (r: bool)
    ensures
        r == unknown(answers_view(answers@)).contains(provider@),
{
    let mut i: usize = 0;
    while i < answers.len()
        invariant
            i <= answers.len(),
            forall|k: int|
                0 <= k < i ==> !(answers_view(answers@)[k].0 == provider@ && answers_view(
                    answers@,
                )[k].1 is None),
        decreases answers.len() - i,
    {
        if answers[i].1.is_none() && answers[i].0 == *provider {
            assert(answers_view(answers@)[i as int].0 == provider@ && answers_view(
                answers@,
            )[i as int].1 is None);
            return true;
        }
        i += 1;
    }
    false
}

/// Settles what the store answered for each identity in the visitor's cookie:
/// the identities that it knew are returned, and the providers for which it
/// knew none leave the cookie. The flag says whether the cookie changed hands,
/// that is whether some answer was empty.
pub fn reconcile(persist: &mut SecurePersist, answers: Vec<(String, Option<Identity>)>) -> (r: (
    Identities,
    bool,
))
    ensures
        r.0@ == known(answers_view(answers@)),
        r.1 == exists|i: int| 0 <= i < answers@.len() && answers@[i].1 is None,
        final(persist)@ == without(old(persist)@, unknown(answers_view(answers@))),
{
    let ghost gone = unknown(answers_view(answers@));
    let ghost keep = |e: (Seq<char>, Seq<char>)| !gone.contains(e.0);
    // the cookie first: it keeps the providers that were answered
    let mut kept: Vec<(String, String)> = Vec::new();
    let mut i: usize = 0;
    assert(old(persist)@.take(0) =~= Seq::empty());
    assert(pair_views(kept@) =~= Seq::empty());
    proof {
        reveal(Seq::filter);
    }
    while i < persist.identities.len()
        invariant
            i <= persist.identities.len(),
            persist@ == old(persist)@,
            gone == unknown(answers_view(answers@)),
            keep == |e: (Seq<char>, Seq<char>)| !gone.contains(e.0),
            pair_views(kept@) == old(persist)@.take(i as int).filter(keep),
        decreases persist.identities.len() - i,
    {
        let ghost seen = old(persist)@.take(i as int);
        proof {
            assert(old(persist)@.take(i + 1) =~= seen.push(old(persist)@[i as int]));
            seen.lemma_filter_push(old(persist)@[i as int], keep);
        }
        if !is_unknown(&answers, &persist.identities[i].0) {
            kept.push((persist.identities[i].0.clone(), persist.identities[i].1.clone()));
            assert(pair_views(kept@) =~= seen.filter(keep).push(old(persist)@[i as int]));
        }
        i += 1;
    }
    assert(old(persist)@.take(i as int) =~= old(persist)@);
    persist.identities = kept;

    let ghost all = answers_view(answers@);
    let mut found: Vec<(String, Identity)> = Vec::new();
    let mut bad = false;
    let ghost given = answers@;
    assert(all.take(0) =~= Seq::empty());
    for answer in it: answers
        invariant
            it.seq() == given,
            all == answers_view(given),
            (Identities(found))@ == known(all.take(it.index() as int)),
            bad == exists|k: int| 0 <= k < it.index() && given[k].1 is None,
    {
        proof {
            assert(all.take(it.index() + 1).drop_last() =~= all.take(it.index() as int));
            assert(all.take(it.index() + 1).last() == all[it.index() as int]);
        }
        let ghost before = (Identities(found))@;
        match answer.1 {
            Some(id) => {
                found.push((answer.0, id));
                assert((Identities(found))@ =~= before.push((answer.0@, id@)));
            },
            None => {
                bad = true;
            },
        }
    }
    assert(all.take(given.len() as int) =~= all);
    (Identities(found), bad)
}

/// How many requests a minute one visitor may make of the login routes.
#[derive(Clone, Copy, Debug, PartialEq, Eq)]
pub struct OAuthRateLimit;

impl OAuthRateLimit {
    /// The number of requests a minute: 100 while developing, else 2.
    pub fn per_minute(develop: bool) -> (r: u32)
        ensures
            r == if develop {
                100u32
            } else {
                2u32
            },
    {
        if develop {
            100
        } else {
            2
        }
    }
}

/// How many requests a minute one visitor may make of the guestbook routes.
#[derive(Clone, Copy, Debug, PartialEq, Eq)]
pub struct GuestbookRateLimit;

impl GuestbookRateLimit {
    /// The number of requests a minute: 100 while developing, else 5.
    pub fn per_minute(develop: bool) -> (r: u32)
        ensures
            r == if develop {
                100u32
            } else {
                5u32
            },
    {
        if develop {
            100
        } else {
            5
        }
    }
}

/// The day on which a visitor last saw each document.
#[derive(Debug, PartialEq, Eq)]
pub struct ClientPersist {
    pub viewed: Vec<(String, Date)>,
}

/// The view of a [`ClientPersist`]: paths and the days they were seen.
pub open spec fn viewed_view(s: Seq<(String, Date)>) -> Seq<(Seq<char>, Ymd)> {
    Seq::new(s.len(), |i: int| (s[i].0@, s[i].1@))
}

impl View for ClientPersist {
    type V = Seq<(Seq<char>, Ymd)>;

    open spec fn view(&self) -> Seq<(Seq<char>, Ymd)> {
        viewed_view(self.viewed@)
    }
}

/// The paths of a list of seen documents.
pub open spec fn seen_paths(s: Seq<(Seq<char>, Ymd)>) -> Seq<Seq<char>> {
    Seq::new(s.len(), |i: int| s[i].0)
}

/// The day on which the visitor last saw the document at `path`.
pub open spec fn last_seen(s: Seq<(Seq<char>, Ymd)>, path: Seq<char>) -> Option<Ymd> {
    match find_key(seen_paths(s), path) {
        Some(i) => Some(s[i].1),
        None => None,
    }
}

/// The list with `day` for `path`: in place of the first entry of this path, or
/// at the end where there is none.
pub open spec fn with_view(s: Seq<(Seq<char>, Ymd)>, path: Seq<char>, day: Ymd) -> Seq<
    (Seq<char>, Ymd),
> {
    match find_key(seen_paths(s), path) {
        Some(i) => s.update(i, (path, day)),
        None => s.push((path, day)),
    }
}

impl ClientPersist {
    /// A visitor who has seen nothing.
    pub fn new() -> (r: ClientPersist)
        ensures
            r@ == Seq::<(Seq<char>, Ymd)>::empty(),
    {
        let r = ClientPersist { viewed: Vec::new() };
        assert(r@ =~= Seq::empty());
        r
    }

    /// The day on which the visitor last saw the document at `path`.
    pub fn last_seen(&self, path: &str) -> (r: Option<Date>)
        ensures
            match r {
                Some(d) => last_seen(self@, path@) == Some(d@),
                None => last_seen(self@, path@) is None,
            },
    {
        assert(seen_paths(self@) =~= keys_of(self.viewed@));
        match position(&self.viewed, path) {
            Some(i) => Some(self.viewed[i].1),
            None => None,
        }
    }

    /// Records that the visitor saw the document at `path` on `day`.
    pub fn mark_viewed(&mut self, path: &str, day: Date)
        ensures
            final(self)@ == with_view(old(self)@, path@, day@),
    {
        assert(seen_paths(self@) =~= keys_of(self.viewed@));
        match position(&self.viewed, path) {
            Some(i) => {
                self.viewed.set(i, (path.to_owned(), day));
                assert(self@ =~= old(self)@.update(i as int, (path@, day@)));
            },
            None => {
                self.viewed.push((path.to_owned(), day));
                assert(self@ =~= old(self)@.push((path@, day@)));
            },
        }
    }
}

} // verus!
