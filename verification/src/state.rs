//! Deterministic addressing over the record stores.
//!
//! Every record is addressed by a stable key tuple: an author profile by its
//! owner identity, a post by (author, timestamp), a follow relation by
//! (followed, follower). These predicates say when a store holds a record at
//! a key, pick out that record, and state the per-store uniqueness that the
//! addressing scheme guarantees.

use vstd::prelude::*;

use crate::counts::{followers_of, following_of, posts_by};
use crate::records::{Author, FollowRelation, Post};

verus! {

/// `s[i]` is the profile addressed by `owner`.
pub open spec fn author_at(s: Seq<Author>, i: int, owner: u64) -> bool {
    0 <= i < s.len() && s[i].owner == owner
}

/// Some live profile is addressed by `owner`.
pub open spec fn has_author(s: Seq<Author>, owner: u64) -> bool {
    exists|i: int| author_at(s, i, owner)
}

/// The index of the profile addressed by `owner` (meaningful under
/// `has_author`).
pub open spec fn author_index(s: Seq<Author>, owner: u64) -> int {
    choose|i: int| author_at(s, i, owner)
}

/// The profile addressed by `owner` (meaningful under `has_author`).
pub open spec fn author_of(s: Seq<Author>, owner: u64) -> Author {
    s[author_index(s, owner)]
}

/// `s[i]` is the post addressed by (`author`, `timestamp`).
pub open spec fn post_at(s: Seq<Post>, i: int, author: u64, timestamp: i64) -> bool {
    0 <= i < s.len() && s[i].author == author && s[i].timestamp == timestamp
}

/// Some live post is addressed by (`author`, `timestamp`).
pub open spec fn has_post(s: Seq<Post>, author: u64, timestamp: i64) -> bool {
    exists|i: int| post_at(s, i, author, timestamp)
}

/// The index of the post addressed by (`author`, `timestamp`).
pub open spec fn post_index(s: Seq<Post>, author: u64, timestamp: i64) -> int {
    choose|i: int| post_at(s, i, author, timestamp)
}

/// The post addressed by (`author`, `timestamp`).
pub open spec fn post_of(s: Seq<Post>, author: u64, timestamp: i64) -> Post {
    s[post_index(s, author, timestamp)]
}

/// `s[i]` is the relation addressed by (`followed`, `follower`).
pub open spec fn relation_at(s: Seq<FollowRelation>, i: int, followed: u64, follower: u64) -> bool {
    0 <= i < s.len() && s[i].followed == followed && s[i].follower == follower
}

/// Some live relation is addressed by (`followed`, `follower`).
pub open spec fn has_relation(s: Seq<FollowRelation>, followed: u64, follower: u64) -> bool {
    exists|i: int| relation_at(s, i, followed, follower)
}

/// The index of the relation addressed by (`followed`, `follower`).
pub open spec fn relation_index(s: Seq<FollowRelation>, followed: u64, follower: u64) -> int {
    choose|i: int| relation_at(s, i, followed, follower)
}

/// No two live profiles share an owner identity.
pub open spec fn authors_unique(s: Seq<Author>) -> bool {
    forall|i: int, j: int|
        #![trigger s[i], s[j]]
        0 <= i < j < s.len() ==> s[i].owner != s[j].owner
}

/// No two live posts share an (author, timestamp) address.
pub open spec fn posts_unique(s: Seq<Post>) -> bool {
    forall|i: int, j: int|
        #![trigger s[i], s[j]]
        0 <= i < j < s.len() ==> !(s[i].author == s[j].author && s[i].timestamp
            == s[j].timestamp)
}

/// No two live relations share a (followed, follower) address.
pub open spec fn relations_unique(s: Seq<FollowRelation>) -> bool {
    forall|i: int, j: int|
        #![trigger s[i], s[j]]
        0 <= i < j < s.len() ==> !(s[i].followed == s[j].followed && s[i].follower
            == s[j].follower)
}

/// A live profile is well formed: its strings respect their bounds and its
/// counters equal the number of live records they summarise.
pub open spec fn author_ok(a: Author, posts: Seq<Post>, rels: Seq<FollowRelation>) -> bool {
    &&& a.name@.len() <= 32
    &&& a.bio@.len() <= 100
    &&& a.post_count == posts_by(posts, a.owner)
    &&& a.followers == followers_of(rels, a.owner)
    &&& a.following == following_of(rels, a.owner)
}

/// A live post is well formed: bounded content, positive timestamp, and a
/// live author profile to be nested under.
pub open spec fn post_ok(p: Post, authors: Seq<Author>) -> bool {
    &&& p.content@.len() <= 256
    &&& p.timestamp > 0
    &&& has_author(authors, p.author)
}

/// A live relation is well formed: no self-follow, and both endpoints have
/// live profiles.
pub open spec fn relation_ok(r: FollowRelation, authors: Seq<Author>) -> bool {
    &&& r.follower != r.followed
    &&& has_author(authors, r.follower)
    &&& has_author(authors, r.followed)
}

/// Under uniqueness, any index holding `owner` is the index the addressing
/// scheme picks out.
pub proof fn lemma_author_index_is(s: Seq<Author>, i: int, owner: u64)
    requires
        authors_unique(s),
        author_at(s, i, owner),
    ensures
        has_author(s, owner),
        author_index(s, owner) == i,
{
    assert(has_author(s, owner));
    let j = author_index(s, owner);
    assert(author_at(s, j, owner));
    if i < j {
        assert(s[i].owner != s[j].owner);
    } else if j < i {
        assert(s[j].owner != s[i].owner);
    }
}

/// Under uniqueness, any index holding the (author, timestamp) key is the
/// index the addressing scheme picks out.
pub proof fn lemma_post_index_is(s: Seq<Post>, i: int, author: u64, timestamp: i64)
    requires
        posts_unique(s),
        post_at(s, i, author, timestamp),
    ensures
        has_post(s, author, timestamp),
        post_index(s, author, timestamp) == i,
{
    assert(has_post(s, author, timestamp));
    let j = post_index(s, author, timestamp);
    assert(post_at(s, j, author, timestamp));
    if i < j {
        assert(!(s[i].author == s[j].author && s[i].timestamp == s[j].timestamp));
    } else if j < i {
        assert(!(s[j].author == s[i].author && s[j].timestamp == s[i].timestamp));
    }
}

/// Under uniqueness, any index holding the (followed, follower) key is the
/// index the addressing scheme picks out.
pub proof fn lemma_relation_index_is(s: Seq<FollowRelation>, i: int, followed: u64, follower: u64)
    requires
        relations_unique(s),
        relation_at(s, i, followed, follower),
    ensures
        has_relation(s, followed, follower),
        relation_index(s, followed, follower) == i,
{
    assert(has_relation(s, followed, follower));
    let j = relation_index(s, followed, follower);
    assert(relation_at(s, j, followed, follower));
    if i < j {
        assert(!(s[i].followed == s[j].followed && s[i].follower == s[j].follower));
    } else if j < i {
        assert(!(s[j].followed == s[i].followed && s[j].follower == s[i].follower));
    }
}

/// Two author stores with pointwise equal owners address the same
/// identities.
pub proof fn lemma_same_owners(s1: Seq<Author>, s2: Seq<Author>)
    requires
        s2.len() == s1.len(),
        forall|j: int| 0 <= j < s1.len() ==> s2[j].owner == s1[j].owner,
    ensures
        forall|o: u64|
            #![trigger has_author(s1, o)]
            #![trigger has_author(s2, o)]
            has_author(s2, o) == has_author(s1, o),
{
    assert forall|o: u64|
        #![trigger has_author(s1, o)]
        #![trigger has_author(s2, o)]
        has_author(s2, o) == has_author(s1, o) by {
        if has_author(s1, o) {
            let w = choose|i: int| author_at(s1, i, o);
            assert(author_at(s2, w, o));
        }
        if has_author(s2, o) {
            let w = choose|i: int| author_at(s2, i, o);
            assert(author_at(s1, w, o));
        }
    }
}

/// Appending a profile only adds its owner to the addressed identities.
pub proof fn lemma_has_author_push(s: Seq<Author>, a: Author)
    ensures
        forall|o: u64|
            #![trigger has_author(s, o)]
            #![trigger has_author(s.push(a), o)]
            has_author(s.push(a), o) == (has_author(s, o) || a.owner == o),
{
    assert forall|o: u64|
        #![trigger has_author(s, o)]
        #![trigger has_author(s.push(a), o)]
        has_author(s.push(a), o) == (has_author(s, o) || a.owner == o) by {
        if has_author(s, o) {
            let w = choose|i: int| author_at(s, i, o);
            assert(author_at(s.push(a), w, o));
        }
        if a.owner == o {
            assert(author_at(s.push(a), s.len() as int, o));
        }
        if has_author(s.push(a), o) {
            let w = choose|i: int| author_at(s.push(a), i, o);
            if w < s.len() {
                assert(author_at(s, w, o));
            }
        }
    }
}

} // verus!
