//! The record state-transition engine.
//!
//! A [`SocialLedger`] holds every live record of the system. Each public
//! operation is one atomic transaction: it authorizes the caller, validates
//! the payload, and either applies its whole state transition or returns an
//! [`ErrorCode`] with the ledger untouched. The well-formedness predicate
//! [`SocialLedger::wf`] is established by [`SocialLedger::new`] and preserved
//! by every operation; it carries record uniqueness per address and the
//! agreement of every aggregate counter with the live records it summarises.

use vstd::prelude::*;
use vstd::string::StrSliceExecFns;

use crate::counter::{counter_decrement, counter_increment};
use crate::counts::{
    lemma_followers_of_member, lemma_followers_of_none, lemma_followers_of_push,
    lemma_followers_of_remove, lemma_following_of_member, lemma_following_of_none,
    lemma_following_of_push, lemma_following_of_remove, lemma_posts_by_member,
    lemma_posts_by_none, lemma_posts_by_push, lemma_posts_by_remove,
};
use crate::errors::ErrorCode;
use crate::records::{
    new_author, new_post, new_relation, with_bio, with_followers, with_following, with_name,
    with_post_count, Author, FollowRelation, Post,
};
use crate::state::{
    author_at, author_index, author_of, author_ok, authors_unique, has_author, has_post,
    has_relation, lemma_author_index_is, lemma_has_author_push, lemma_post_index_is,
    lemma_relation_index_is, lemma_same_owners, post_at, post_index, post_of, post_ok,
    posts_unique, relation_at, relation_index, relation_ok, relations_unique,
};

verus! {

/// The ledger's record store: every live profile, post, and follow relation.
pub struct SocialLedger {
    author_store: Vec<Author>,
    post_store: Vec<Post>,
    relation_store: Vec<FollowRelation>,
}

impl SocialLedger {
    /// The live author profiles.
    pub closed spec fn authors(self) -> Seq<Author> {
        self.author_store@
    }

    /// The live posts.
    pub closed spec fn posts(self) -> Seq<Post> {
        self.post_store@
    }

    /// The live follow relations.
    pub closed spec fn relations(self) -> Seq<FollowRelation> {
        self.relation_store@
    }

    /// Well-formedness: addresses are unique per store, every record is
    /// internally valid, and every counter equals the number of live records
    /// it summarises.
    pub open spec fn wf(self) -> bool {
        &&& authors_unique(self.authors())
        &&& posts_unique(self.posts())
        &&& relations_unique(self.relations())
        &&& forall|i: int|
            0 <= i < self.authors().len() ==> author_ok(
                #[trigger] self.authors()[i],
                self.posts(),
                self.relations(),
            )
        &&& forall|i: int|
            0 <= i < self.posts().len() ==> post_ok(#[trigger] self.posts()[i], self.authors())
        &&& forall|i: int|
            0 <= i < self.relations().len() ==> relation_ok(
                #[trigger] self.relations()[i],
                self.authors(),
            )
    }

    /// An empty, well-formed ledger.
    pub fn new() -> (l: SocialLedger)
        ensures
            l.wf(),
            l.authors() == Seq::<Author>::empty(),
            l.posts() == Seq::<Post>::empty(),
            l.relations() == Seq::<FollowRelation>::empty(),
    {
        let l = SocialLedger { author_store: Vec::new(), post_store: Vec::new(), relation_store: Vec::new() };
        proof {
            assert(l.authors() =~= Seq::<Author>::empty());
            assert(l.posts() =~= Seq::<Post>::empty());
            assert(l.relations() =~= Seq::<FollowRelation>::empty());
        }
        l
    }

    /// Resolves the address derived from `owner` in the profile store.
    fn find_author(&self, owner: u64) -> (r: Option<usize>)
        ensures
            match r {
                Some(i) => author_at(self.authors(), i as int, owner),
                None => !has_author(self.authors(), owner),
            },
    {
        let n = self.author_store.len();
        let mut i: usize = 0;
        while i < n
            invariant
                n == self.authors().len(),
                i <= n,
                forall|j: int| 0 <= j < i ==> self.authors()[j].owner != owner,
            decreases n - i,
        {
            if self.author_store[i].owner == owner {
                return Some(i);
            }
            i = i + 1;
        }
        proof {
            assert forall|j: int| 0 <= j < self.authors().len() implies !author_at(
                self.authors(),
                j,
                owner,
            ) by {}
        }
        None
    }

    /// Resolves the address derived from (`author`, `timestamp`) in the post
    /// store.
    fn find_post(&self, author: u64, timestamp: i64) -> (r: Option<usize>)
        ensures
            match r {
                Some(i) => post_at(self.posts(), i as int, author, timestamp),
                None => !has_post(self.posts(), author, timestamp),
            },
    {
        let n = self.post_store.len();
        let mut i: usize = 0;
        while i < n
            invariant
                n == self.posts().len(),
                i <= n,
                forall|j: int|
                    0 <= j < i ==> !(self.posts()[j].author == author && self.posts()[j].timestamp
                        == timestamp),
            decreases n - i,
        {
            if self.post_store[i].author == author && self.post_store[i].timestamp == timestamp {
                return Some(i);
            }
            i = i + 1;
        }
        proof {
            assert forall|j: int| 0 <= j < self.posts().len() implies !post_at(
                self.posts(),
                j,
                author,
                timestamp,
            ) by {}
        }
        None
    }

    /// Resolves the address derived from (`followed`, `follower`) in the
    /// relation store.
    fn find_relation(&self, followed: u64, follower: u64) -> (r: Option<usize>)
        ensures
            match r {
                Some(i) => relation_at(self.relations(), i as int, followed, follower),
                None => !has_relation(self.relations(), followed, follower),
            },
    {
        let n = self.relation_store.len();
        let mut i: usize = 0;
        while i < n
            invariant
                n == self.relations().len(),
                i <= n,
                forall|j: int|
                    0 <= j < i ==> !(self.relations()[j].followed == followed
                        && self.relations()[j].follower == follower),
            decreases n - i,
        {
            if self.relation_store[i].followed == followed && self.relation_store[i].follower
                == follower {
                return Some(i);
            }
            i = i + 1;
        }
        proof {
            assert forall|j: int| 0 <= j < self.relations().len() implies !relation_at(
                self.relations(),
                j,
                followed,
                follower,
            ) by {}
        }
        None
    }

    /// Creates the profile addressed by `owner`, the caller's own identity,
    /// with all counters zero. Fails, leaving the ledger untouched, when a
    /// string exceeds its bound or a profile already lives at that address.
    pub fn create_author(&mut self, owner: u64, name: String, bio: String) -> (r: Result<
        (),
        ErrorCode,
    >)
        requires
            old(self).wf(),
        ensures
            final(self).wf(),
            r == (if name@.len() > 32 {
                Err::<(), ErrorCode>(ErrorCode::NameTooLong)
            } else if bio@.len() > 100 {
                Err::<(), ErrorCode>(ErrorCode::BioTooLong)
            } else if has_author(old(self).authors(), owner) {
                Err::<(), ErrorCode>(ErrorCode::AddressCollision)
            } else {
                Ok::<(), ErrorCode>(())
            }),
            (name@.len() > 32 || bio@.len() > 100 || has_author(old(self).authors(), owner))
                ==> *final(self) == *old(self),
            (name@.len() <= 32 && bio@.len() <= 100 && !has_author(old(self).authors(), owner))
                ==> {
                &&& final(self).authors() == old(self).authors().push(new_author(owner, name, bio))
                &&& final(self).posts() == old(self).posts()
                &&& final(self).relations() == old(self).relations()
            },
    {
        if name.as_str().unicode_len() > 32 {
            return Err(ErrorCode::NameTooLong);
        }
        if bio.as_str().unicode_len() > 100 {
            return Err(ErrorCode::BioTooLong);
        }
        if self.find_author(owner).is_some() {
            proof {
                assert(has_author(self.authors(), owner));
            }
            return Err(ErrorCode::AddressCollision);
        }
        let a = Author { name, owner, bio, post_count: 0, followers: 0, following: 0 };
        self.author_store.push(a);
        proof {
            let s1 = old(self).authors();
            let s2 = self.authors();
            let ps = self.posts();
            let rl = self.relations();
            let a0 = s2[s2.len() - 1];
            assert(a0 == new_author(owner, name, bio));
            // no pre-existing record references the new owner
            assert forall|i: int| 0 <= i < s1.len() implies s1[i].owner != owner by {
                if s1[i].owner == owner {
                    assert(author_at(s1, i, owner));
                }
            }
            assert forall|k: int| 0 <= k < ps.len() implies ps[k].author != owner by {
                assert(post_ok(ps[k], s1));
            }
            assert forall|k: int| 0 <= k < rl.len() implies rl[k].follower != owner && rl[k].followed
                != owner by {
                assert(relation_ok(rl[k], s1));
            }
            lemma_posts_by_none(ps, owner);
            lemma_following_of_none(rl, owner);
            lemma_followers_of_none(rl, owner);
            // uniqueness survives the push
            assert forall|i: int, j: int| 0 <= i < j < s2.len() implies s2[i].owner != s2[j].owner by {
                if j < s1.len() {
                    assert(s2[i] == s1[i] && s2[j] == s1[j]);
                }
            }
            // every profile, old or new, stays well formed
            assert forall|i: int| 0 <= i < s2.len() implies author_ok(s2[i], ps, rl) by {
                if i < s1.len() {
                    assert(author_ok(s1[i], ps, rl));
                }
            }
            // the new profile addresses one more identity; old records only
            // reference old identities
            lemma_has_author_push(s1, a0);
            assert forall|k: int| 0 <= k < ps.len() implies post_ok(ps[k], s2) by {
                assert(post_ok(ps[k], s1));
            }
            assert forall|k: int| 0 <= k < rl.len() implies relation_ok(rl[k], s2) by {
                assert(relation_ok(rl[k], s1));
            }
        }
        Ok(())
    }

    /// Replaces the name of the profile addressed by `author`, in place.
    /// Only the profile's owner may edit it; nothing changes on failure.
    pub fn edit_name(&mut self, caller: u64, author: u64, name: String) -> (r: Result<
        (),
        ErrorCode,
    >)
        requires
            old(self).wf(),
        ensures
            final(self).wf(),
            r == (if !has_author(old(self).authors(), author) {
                Err::<(), ErrorCode>(ErrorCode::AddressCollision)
            } else if caller != author_of(old(self).authors(), author).owner {
                Err::<(), ErrorCode>(ErrorCode::Unauthorized)
            } else if name@.len() > 32 {
                Err::<(), ErrorCode>(ErrorCode::NameTooLong)
            } else {
                Ok::<(), ErrorCode>(())
            }),
            !(has_author(old(self).authors(), author) && caller == author_of(
                old(self).authors(),
                author,
            ).owner && name@.len() <= 32) ==> *final(self) == *old(self),
            (has_author(old(self).authors(), author) && caller == author_of(
                old(self).authors(),
                author,
            ).owner && name@.len() <= 32) ==> {
                &&& final(self).authors() == old(self).authors().update(
                    author_index(old(self).authors(), author),
                    with_name(author_of(old(self).authors(), author), name),
                )
                &&& final(self).posts() == old(self).posts()
                &&& final(self).relations() == old(self).relations()
            },
    {
        let i = match self.find_author(author) {
            None => {
                return Err(ErrorCode::AddressCollision);
            },
            Some(i) => i,
        };
        proof {
            lemma_author_index_is(self.authors(), i as int, author);
        }
        if self.author_store[i].owner != caller {
            return Err(ErrorCode::Unauthorized);
        }
        if name.as_str().unicode_len() > 32 {
            return Err(ErrorCode::NameTooLong);
        }
        let mut a = self.author_store.remove(i);
        a.name = name;
        self.author_store.insert(i, a);
        proof {
            let s1 = old(self).authors();
            let s2 = self.authors();
            let ps = self.posts();
            let rl = self.relations();
            assert(s2 =~= s1.update(i as int, with_name(author_of(s1, author), name)));
            lemma_same_owners(s1, s2);
            assert forall|x: int, y: int| 0 <= x < y < s2.len() implies s2[x].owner != s2[y].owner by {
                assert(s1[x].owner != s1[y].owner);
            }
            assert forall|j: int| 0 <= j < s2.len() implies author_ok(s2[j], ps, rl) by {
                assert(author_ok(s1[j], ps, rl));
            }
            assert forall|k: int| 0 <= k < ps.len() implies post_ok(ps[k], s2) by {
                assert(post_ok(ps[k], s1));
            }
            assert forall|k: int| 0 <= k < rl.len() implies relation_ok(rl[k], s2) by {
                assert(relation_ok(rl[k], s1));
            }
        }
        Ok(())
    }

    /// Replaces the bio of the profile addressed by `author`, in place.
    /// Only the profile's owner may edit it; nothing changes on failure.
    pub fn edit_bio(&mut self, caller: u64, author: u64, bio: String) -> (r: Result<
        (),
        ErrorCode,
    >)
        requires
            old(self).wf(),
        ensures
            final(self).wf(),
            r == (if !has_author(old(self).authors(), author) {
                Err::<(), ErrorCode>(ErrorCode::AddressCollision)
            } else if caller != author_of(old(self).authors(), author).owner {
                Err::<(), ErrorCode>(ErrorCode::Unauthorized)
            } else if bio@.len() > 100 {
                Err::<(), ErrorCode>(ErrorCode::BioTooLong)
            } else {
                Ok::<(), ErrorCode>(())
            }),
            !(has_author(old(self).authors(), author) && caller == author_of(
                old(self).authors(),
                author,
            ).owner && bio@.len() <= 100) ==> *final(self) == *old(self),
            (has_author(old(self).authors(), author) && caller == author_of(
                old(self).authors(),
                author,
            ).owner && bio@.len() <= 100) ==> {
                &&& final(self).authors() == old(self).authors().update(
                    author_index(old(self).authors(), author),
                    with_bio(author_of(old(self).authors(), author), bio),
                )
                &&& final(self).posts() == old(self).posts()
                &&& final(self).relations() == old(self).relations()
            },
    {
        let i = match self.find_author(author) {
            None => {
                return Err(ErrorCode::AddressCollision);
            },
            Some(i) => i,
        };
        proof {
            lemma_author_index_is(self.authors(), i as int, author);
        }
        if self.author_store[i].owner != caller {
            return Err(ErrorCode::Unauthorized);
        }
        if bio.as_str().unicode_len() > 100 {
            return Err(ErrorCode::BioTooLong);
        }
        let mut a = self.author_store.remove(i);
        a.bio = bio;
        self.author_store.insert(i, a);
        proof {
            let s1 = old(self).authors();
            let s2 = self.authors();
            let ps = self.posts();
            let rl = self.relations();
            assert(s2 =~= s1.update(i as int, with_bio(author_of(s1, author), bio)));
            lemma_same_owners(s1, s2);
            assert forall|x: int, y: int| 0 <= x < y < s2.len() implies s2[x].owner != s2[y].owner by {
                assert(s1[x].owner != s1[y].owner);
            }
            assert forall|j: int| 0 <= j < s2.len() implies author_ok(s2[j], ps, rl) by {
                assert(author_ok(s1[j], ps, rl));
            }
            assert forall|k: int| 0 <= k < ps.len() implies post_ok(ps[k], s2) by {
                assert(post_ok(ps[k], s1));
            }
            assert forall|k: int| 0 <= k < rl.len() implies relation_ok(rl[k], s2) by {
                assert(relation_ok(rl[k], s1));
            }
        }
        Ok(())
    }

    /// Creates the post addressed by (`author`, `timestamp`) and raises the
    /// author's post counter by one, atomically. Only the profile's owner may
    /// post under it; nothing changes on failure.
    pub fn create_post(
        &mut self,
        caller: u64,
        author: u64,
        timestamp: i64,
        content: String,
    ) -> (r: Result<(), ErrorCode>)
        requires
            old(self).wf(),
        ensures
            final(self).wf(),
            r == (if !has_author(old(self).authors(), author) {
                Err::<(), ErrorCode>(ErrorCode::AddressCollision)
            } else if caller != author_of(old(self).authors(), author).owner {
                Err::<(), ErrorCode>(ErrorCode::Unauthorized)
            } else if content@.len() > 256 {
                Err::<(), ErrorCode>(ErrorCode::ContentTooLong)
            } else if timestamp <= 0 {
                Err::<(), ErrorCode>(ErrorCode::InvalidTimestamp)
            } else if has_post(old(self).posts(), author, timestamp) {
                Err::<(), ErrorCode>(ErrorCode::AddressCollision)
            } else if author_of(old(self).authors(), author).post_count == u64::MAX {
                Err::<(), ErrorCode>(ErrorCode::Overflow)
            } else {
                Ok::<(), ErrorCode>(())
            }),
            r != Ok::<(), ErrorCode>(()) ==> *final(self) == *old(self),
            r == Ok::<(), ErrorCode>(()) ==> {
                &&& final(self).posts() == old(self).posts().push(
                    new_post(author, content, timestamp),
                )
                &&& final(self).authors() == old(self).authors().update(
                    author_index(old(self).authors(), author),
                    with_post_count(
                        author_of(old(self).authors(), author),
                        (author_of(old(self).authors(), author).post_count + 1) as u64,
                    ),
                )
                &&& final(self).relations() == old(self).relations()
            },
    {
        let i = match self.find_author(author) {
            None => {
                return Err(ErrorCode::AddressCollision);
            },
            Some(i) => i,
        };
        proof {
            lemma_author_index_is(self.authors(), i as int, author);
        }
        if self.author_store[i].owner != caller {
            return Err(ErrorCode::Unauthorized);
        }
        if content.as_str().unicode_len() > 256 {
            return Err(ErrorCode::ContentTooLong);
        }
        if timestamp <= 0 {
            return Err(ErrorCode::InvalidTimestamp);
        }
        if self.find_post(author, timestamp).is_some() {
            proof {
                assert(has_post(self.posts(), author, timestamp));
            }
            return Err(ErrorCode::AddressCollision);
        }
        let new_count = match counter_increment(self.author_store[i].post_count) {
            Err(e) => {
                return Err(e);
            },
            Ok(c) => c,
        };
        self.post_store.push(Post { author, content, timestamp });
        let mut a = self.author_store.remove(i);
        a.post_count = new_count;
        self.author_store.insert(i, a);
        proof {
            let s1 = old(self).authors();
            let s2 = self.authors();
            let p1 = old(self).posts();
            let p2 = self.posts();
            let rl = self.relations();
            let p0 = p2[p2.len() - 1];
            assert(p0 == new_post(author, content, timestamp));
            assert(s2 =~= s1.update(
                i as int,
                with_post_count(author_of(s1, author), (author_of(s1, author).post_count + 1) as u64),
            ));
            lemma_same_owners(s1, s2);
            assert forall|x: int, y: int| 0 <= x < y < s2.len() implies s2[x].owner != s2[y].owner by {
                assert(s1[x].owner != s1[y].owner);
            }
            // the new address was free, so post uniqueness survives the push
            assert forall|k: int| 0 <= k < p1.len() implies !(p1[k].author == author
                && p1[k].timestamp == timestamp) by {
                if p1[k].author == author && p1[k].timestamp == timestamp {
                    assert(post_at(p1, k, author, timestamp));
                }
            }
            assert forall|x: int, y: int| 0 <= x < y < p2.len() implies !(p2[x].author
                == p2[y].author && p2[x].timestamp == p2[y].timestamp) by {
                if y < p1.len() {
                    assert(p2[x] == p1[x] && p2[y] == p1[y]);
                }
            }
            // only the author's post counter moves, by exactly one
            assert forall|j: int| 0 <= j < s2.len() implies author_ok(s2[j], p2, rl) by {
                assert(author_ok(s1[j], p1, rl));
                lemma_posts_by_push(p1, p0, s2[j].owner);
                if j != i as int {
                    assert(s1[j].owner != s1[i as int].owner);
                }
            }
            assert forall|k: int| 0 <= k < p2.len() implies post_ok(p2[k], s2) by {
                if k < p1.len() {
                    assert(post_ok(p1[k], s1));
                }
            }
            assert forall|k: int| 0 <= k < rl.len() implies relation_ok(rl[k], s2) by {
                assert(relation_ok(rl[k], s1));
            }
        }
        Ok(())
    }

    /// Removes the post addressed by (`author`, `timestamp`) and lowers the
    /// author's post counter by one, atomically. Only the post's author may
    /// delete it; nothing changes on failure.
    pub fn delete_post(&mut self, caller: u64, author: u64, timestamp: i64) -> (r: Result<
        (),
        ErrorCode,
    >)
        requires
            old(self).wf(),
        ensures
            final(self).wf(),
            r == (if !has_author(old(self).authors(), author) {
                Err::<(), ErrorCode>(ErrorCode::AddressCollision)
            } else if !has_post(old(self).posts(), author, timestamp) {
                Err::<(), ErrorCode>(ErrorCode::AddressCollision)
            } else if caller != author_of(old(self).authors(), author).owner {
                Err::<(), ErrorCode>(ErrorCode::CanNotDeletePost)
            } else {
                Ok::<(), ErrorCode>(())
            }),
            r != Ok::<(), ErrorCode>(()) ==> *final(self) == *old(self),
            r == Ok::<(), ErrorCode>(()) ==> {
                &&& final(self).posts() == old(self).posts().remove(
                    post_index(old(self).posts(), author, timestamp),
                )
                &&& final(self).authors() == old(self).authors().update(
                    author_index(old(self).authors(), author),
                    with_post_count(
                        author_of(old(self).authors(), author),
                        (author_of(old(self).authors(), author).post_count - 1) as u64,
                    ),
                )
                &&& final(self).relations() == old(self).relations()
            },
    {
        let i = match self.find_author(author) {
            None => {
                return Err(ErrorCode::AddressCollision);
            },
            Some(i) => i,
        };
        proof {
            lemma_author_index_is(self.authors(), i as int, author);
        }
        let pi = match self.find_post(author, timestamp) {
            None => {
                return Err(ErrorCode::AddressCollision);
            },
            Some(pi) => pi,
        };
        proof {
            lemma_post_index_is(self.posts(), pi as int, author, timestamp);
        }
        if self.author_store[i].owner != caller {
            return Err(ErrorCode::CanNotDeletePost);
        }
        proof {
            // the live post witnesses a positive counter, so the checked
            // decrement cannot underflow
            lemma_posts_by_member(self.posts(), pi as int, author);
        }
        let new_count = match counter_decrement(self.author_store[i].post_count) {
            Err(_) => {
                proof {
                    assert(false);
                }
                return Err(ErrorCode::Overflow);
            },
            Ok(c) => c,
        };
        let _removed = self.post_store.remove(pi);
        let mut a = self.author_store.remove(i);
        a.post_count = new_count;
        self.author_store.insert(i, a);
        proof {
            let s1 = old(self).authors();
            let s2 = self.authors();
            let p1 = old(self).posts();
            let p2 = self.posts();
            let rl = self.relations();
            assert(s2 =~= s1.update(
                i as int,
                with_post_count(author_of(s1, author), (author_of(s1, author).post_count - 1) as u64),
            ));
            lemma_same_owners(s1, s2);
            assert forall|x: int, y: int| 0 <= x < y < s2.len() implies s2[x].owner != s2[y].owner by {
                assert(s1[x].owner != s1[y].owner);
            }
            p1.remove_ensures(pi as int);
            // removal keeps the remaining posts' addresses distinct
            assert forall|x: int, y: int| 0 <= x < y < p2.len() implies !(p2[x].author
                == p2[y].author && p2[x].timestamp == p2[y].timestamp) by {
                let x1 = if x < pi as int { x } else { x + 1 };
                let y1 = if y < pi as int { y } else { y + 1 };
                assert(p2[x] == p1[x1] && p2[y] == p1[y1]);
                assert(!(p1[x1].author == p1[y1].author && p1[x1].timestamp == p1[y1].timestamp));
            }
            // only the author's post counter moves, by exactly one
            assert forall|j: int| 0 <= j < s2.len() implies author_ok(s2[j], p2, rl) by {
                assert(author_ok(s1[j], p1, rl));
                lemma_posts_by_remove(p1, pi as int, s2[j].owner);
                if j != i as int {
                    assert(s1[j].owner != s1[i as int].owner);
                }
            }
            assert forall|k: int| 0 <= k < p2.len() implies post_ok(p2[k], s2) by {
                let k1 = if k < pi as int {
                    k
                } else {
                    k + 1
                };
                assert(p2[k] == p1[k1]);
                assert(post_ok(p1[k1], s1));
            }
            assert forall|k: int| 0 <= k < rl.len() implies relation_ok(rl[k], s2) by {
                assert(relation_ok(rl[k], s1));
            }
        }
        Ok(())
    }

    /// Creates the relation addressed by (`followed`, `caller`) and raises
    /// the caller's following counter and the followed party's followers
    /// counter by one each, atomically. Nothing changes on failure.
    pub fn follow(&mut self, caller: u64, followed: u64) -> (r: Result<(), ErrorCode>)
        requires
            old(self).wf(),
        ensures
            final(self).wf(),
            r == (if caller == followed {
                Err::<(), ErrorCode>(ErrorCode::CanNotFollowYourself)
            } else if !has_author(old(self).authors(), caller) || !has_author(
                old(self).authors(),
                followed,
            ) {
                Err::<(), ErrorCode>(ErrorCode::AddressCollision)
            } else if has_relation(old(self).relations(), followed, caller) {
                Err::<(), ErrorCode>(ErrorCode::AddressCollision)
            } else if author_of(old(self).authors(), caller).following == u64::MAX || author_of(
                old(self).authors(),
                followed,
            ).followers == u64::MAX {
                Err::<(), ErrorCode>(ErrorCode::Overflow)
            } else {
                Ok::<(), ErrorCode>(())
            }),
            r != Ok::<(), ErrorCode>(()) ==> *final(self) == *old(self),
            r == Ok::<(), ErrorCode>(()) ==> {
                &&& final(self).relations() == old(self).relations().push(
                    new_relation(caller, followed),
                )
                &&& final(self).authors() == old(self).authors().update(
                    author_index(old(self).authors(), caller),
                    with_following(
                        author_of(old(self).authors(), caller),
                        (author_of(old(self).authors(), caller).following + 1) as u64,
                    ),
                ).update(
                    author_index(old(self).authors(), followed),
                    with_followers(
                        author_of(old(self).authors(), followed),
                        (author_of(old(self).authors(), followed).followers + 1) as u64,
                    ),
                )
                &&& final(self).posts() == old(self).posts()
            },
    {
        if caller == followed {
            return Err(ErrorCode::CanNotFollowYourself);
        }
        let ci = match self.find_author(caller) {
            None => {
                return Err(ErrorCode::AddressCollision);
            },
            Some(i) => i,
        };
        let fi = match self.find_author(followed) {
            None => {
                return Err(ErrorCode::AddressCollision);
            },
            Some(i) => i,
        };
        proof {
            lemma_author_index_is(self.authors(), ci as int, caller);
            lemma_author_index_is(self.authors(), fi as int, followed);
        }
        if self.find_relation(followed, caller).is_some() {
            proof {
                assert(has_relation(self.relations(), followed, caller));
            }
            return Err(ErrorCode::AddressCollision);
        }
        // check both counters before touching either, so a failure leaves
        // the whole transaction without effect
        let new_following = match counter_increment(self.author_store[ci].following) {
            Err(e) => {
                return Err(e);
            },
            Ok(c) => c,
        };
        let new_followers = match counter_increment(self.author_store[fi].followers) {
            Err(e) => {
                return Err(e);
            },
            Ok(c) => c,
        };
        self.relation_store.push(FollowRelation { follower: caller, followed });
        let mut a = self.author_store.remove(ci);
        a.following = new_following;
        self.author_store.insert(ci, a);
        let mut b = self.author_store.remove(fi);
        b.followers = new_followers;
        self.author_store.insert(fi, b);
        proof {
            let s1 = old(self).authors();
            let s2 = self.authors();
            let ps = self.posts();
            let rl1 = old(self).relations();
            let rl2 = self.relations();
            let rel0 = rl2[rl2.len() - 1];
            assert(rel0 == new_relation(caller, followed));
            assert(s2 =~= s1.update(
                ci as int,
                with_following(author_of(s1, caller), (author_of(s1, caller).following + 1) as u64),
            ).update(
                fi as int,
                with_followers(
                    author_of(s1, followed),
                    (author_of(s1, followed).followers + 1) as u64,
                ),
            ));
            lemma_same_owners(s1, s2);
            assert forall|x: int, y: int| 0 <= x < y < s2.len() implies s2[x].owner != s2[y].owner by {
                assert(s1[x].owner != s1[y].owner);
            }
            // the new address was free, so relation uniqueness survives
            assert forall|k: int| 0 <= k < rl1.len() implies !(rl1[k].followed == followed
                && rl1[k].follower == caller) by {
                if rl1[k].followed == followed && rl1[k].follower == caller {
                    assert(relation_at(rl1, k, followed, caller));
                }
            }
            assert forall|x: int, y: int| 0 <= x < y < rl2.len() implies !(rl2[x].followed
                == rl2[y].followed && rl2[x].follower == rl2[y].follower) by {
                if y < rl1.len() {
                    assert(rl2[x] == rl1[x] && rl2[y] == rl1[y]);
                }
            }
            // exactly one following and one followers counter move, by one
            assert forall|j: int| 0 <= j < s2.len() implies author_ok(s2[j], ps, rl2) by {
                assert(author_ok(s1[j], ps, rl1));
                lemma_following_of_push(rl1, rel0, s2[j].owner);
                lemma_followers_of_push(rl1, rel0, s2[j].owner);
                if j != ci as int {
                    assert(s1[j].owner != s1[ci as int].owner);
                }
                if j != fi as int {
                    assert(s1[j].owner != s1[fi as int].owner);
                }
            }
            assert forall|k: int| 0 <= k < ps.len() implies post_ok(ps[k], s2) by {
                assert(post_ok(ps[k], s1));
            }
            assert forall|k: int| 0 <= k < rl2.len() implies relation_ok(rl2[k], s2) by {
                if k < rl1.len() {
                    assert(relation_ok(rl1[k], s1));
                }
            }
        }
        Ok(())
    }

    /// Removes the relation addressed by (`followed`, `caller`) and lowers
    /// the caller's following counter and the followed party's followers
    /// counter by one each, atomically. Nothing changes on failure.
    pub fn unfollow(&mut self, caller: u64, followed: u64) -> (r: Result<(), ErrorCode>)
        requires
            old(self).wf(),
        ensures
            final(self).wf(),
            r == (if caller == followed {
                Err::<(), ErrorCode>(ErrorCode::CanNotFollowYourself)
            } else if !has_relation(old(self).relations(), followed, caller) {
                Err::<(), ErrorCode>(ErrorCode::AddressCollision)
            } else {
                Ok::<(), ErrorCode>(())
            }),
            r != Ok::<(), ErrorCode>(()) ==> *final(self) == *old(self),
            r == Ok::<(), ErrorCode>(()) ==> {
                &&& final(self).relations() == old(self).relations().remove(
                    relation_index(old(self).relations(), followed, caller),
                )
                &&& final(self).authors() == old(self).authors().update(
                    author_index(old(self).authors(), caller),
                    with_following(
                        author_of(old(self).authors(), caller),
                        (author_of(old(self).authors(), caller).following - 1) as u64,
                    ),
                ).update(
                    author_index(old(self).authors(), followed),
                    with_followers(
                        author_of(old(self).authors(), followed),
                        (author_of(old(self).authors(), followed).followers - 1) as u64,
                    ),
                )
                &&& final(self).posts() == old(self).posts()
            },
    {
        if caller == followed {
            return Err(ErrorCode::CanNotFollowYourself);
        }
        let ri = match self.find_relation(followed, caller) {
            None => {
                return Err(ErrorCode::AddressCollision);
            },
            Some(i) => i,
        };
        proof {
            lemma_relation_index_is(self.relations(), ri as int, followed, caller);
            // the live relation guarantees both profiles exist
            assert(relation_ok(self.relations()[ri as int], self.authors()));
        }
        let ci = match self.find_author(caller) {
            None => {
                proof {
                    assert(false);
                }
                return Err(ErrorCode::AddressCollision);
            },
            Some(i) => i,
        };
        let fi = match self.find_author(followed) {
            None => {
                proof {
                    assert(false);
                }
                return Err(ErrorCode::AddressCollision);
            },
            Some(i) => i,
        };
        proof {
            lemma_author_index_is(self.authors(), ci as int, caller);
            lemma_author_index_is(self.authors(), fi as int, followed);
            // the live relation witnesses positive counters on both sides,
            // so the checked decrements cannot underflow
            lemma_following_of_member(self.relations(), ri as int, caller);
            lemma_followers_of_member(self.relations(), ri as int, followed);
            assert(author_ok(self.authors()[ci as int], self.posts(), self.relations()));
            assert(author_ok(self.authors()[fi as int], self.posts(), self.relations()));
        }
        let new_following = match counter_decrement(self.author_store[ci].following) {
            Err(_) => {
                proof {
                    assert(false);
                }
                return Err(ErrorCode::Overflow);
            },
            Ok(c) => c,
        };
        let new_followers = match counter_decrement(self.author_store[fi].followers) {
            Err(_) => {
                proof {
                    assert(false);
                }
                return Err(ErrorCode::Overflow);
            },
            Ok(c) => c,
        };
        let _removed = self.relation_store.remove(ri);
        let mut a = self.author_store.remove(ci);
        a.following = new_following;
        self.author_store.insert(ci, a);
        let mut b = self.author_store.remove(fi);
        b.followers = new_followers;
        self.author_store.insert(fi, b);
        proof {
            let s1 = old(self).authors();
            let s2 = self.authors();
            let ps = self.posts();
            let rl1 = old(self).relations();
            let rl2 = self.relations();
            assert(s2 =~= s1.update(
                ci as int,
                with_following(author_of(s1, caller), (author_of(s1, caller).following - 1) as u64),
            ).update(
                fi as int,
                with_followers(
                    author_of(s1, followed),
                    (author_of(s1, followed).followers - 1) as u64,
                ),
            ));
            lemma_same_owners(s1, s2);
            assert forall|x: int, y: int| 0 <= x < y < s2.len() implies s2[x].owner != s2[y].owner by {
                assert(s1[x].owner != s1[y].owner);
            }
            rl1.remove_ensures(ri as int);
            // removal keeps the remaining relations' addresses distinct
            assert forall|x: int, y: int| 0 <= x < y < rl2.len() implies !(rl2[x].followed
                == rl2[y].followed && rl2[x].follower == rl2[y].follower) by {
                let x1 = if x < ri as int { x } else { x + 1 };
                let y1 = if y < ri as int { y } else { y + 1 };
                assert(rl2[x] == rl1[x1] && rl2[y] == rl1[y1]);
                assert(!(rl1[x1].followed == rl1[y1].followed && rl1[x1].follower
                    == rl1[y1].follower));
            }
            // exactly one following and one followers counter move, by one
            assert forall|j: int| 0 <= j < s2.len() implies author_ok(s2[j], ps, rl2) by {
                assert(author_ok(s1[j], ps, rl1));
                lemma_following_of_remove(rl1, ri as int, s2[j].owner);
                lemma_followers_of_remove(rl1, ri as int, s2[j].owner);
                if j != ci as int {
                    assert(s1[j].owner != s1[ci as int].owner);
                }
                if j != fi as int {
                    assert(s1[j].owner != s1[fi as int].owner);
                }
            }
            assert forall|k: int| 0 <= k < ps.len() implies post_ok(ps[k], s2) by {
                assert(post_ok(ps[k], s1));
            }
            assert forall|k: int| 0 <= k < rl2.len() implies relation_ok(rl2[k], s2) by {
                let k1 = if k < ri as int {
                    k
                } else {
                    k + 1
                };
                assert(rl2[k] == rl1[k1]);
                assert(relation_ok(rl1[k1], s1));
            }
        }
        Ok(())
    }

    /// Looks up the live profile addressed by `owner`, if any.
    pub fn get_author(&self, owner: u64) -> (r: Option<&Author>)
        requires
            self.wf(),
        ensures
            match r {
                Some(a) => has_author(self.authors(), owner) && *a == author_of(
                    self.authors(),
                    owner,
                ),
                None => !has_author(self.authors(), owner),
            },
    {
        match self.find_author(owner) {
            Some(i) => {
                proof {
                    lemma_author_index_is(self.authors(), i as int, owner);
                }
                Some(&self.author_store[i])
            },
            None => None,
        }
    }

    /// Looks up the live post addressed by (`author`, `timestamp`), if any.
    pub fn get_post(&self, author: u64, timestamp: i64) -> (r: Option<&Post>)
        requires
            self.wf(),
        ensures
            match r {
                Some(p) => has_post(self.posts(), author, timestamp) && *p == post_of(
                    self.posts(),
                    author,
                    timestamp,
                ),
                None => !has_post(self.posts(), author, timestamp),
            },
    {
        match self.find_post(author, timestamp) {
            Some(i) => {
                proof {
                    lemma_post_index_is(self.posts(), i as int, author, timestamp);
                }
                Some(&self.post_store[i])
            },
            None => None,
        }
    }

    /// Looks up the live relation addressed by (`followed`, `follower`), if
    /// any.
    pub fn get_relation(&self, followed: u64, follower: u64) -> (r: Option<&FollowRelation>)
        requires
            self.wf(),
        ensures
            match r {
                Some(rel) => has_relation(self.relations(), followed, follower) && rel.followed
                    == followed && rel.follower == follower,
                None => !has_relation(self.relations(), followed, follower),
            },
    {
        match self.find_relation(followed, follower) {
            Some(i) => Some(&self.relation_store[i]),
            None => None,
        }
    }
}

} // verus!
