//! Counting live records per author.
//!
//! The ledger's aggregate counters (post_count, followers, following) must
//! always equal the number of live records they summarise. These spec
//! functions define those numbers, and the lemmas track how a push or a
//! removal moves them.

use vstd::prelude::*;

use crate::records::{FollowRelation, Post};

verus! {

/// The number of live posts whose author is `owner`.
pub open spec fn posts_by(s: Seq<Post>, owner: u64) -> nat
    decreases s.len(),
{
    if s.len() == 0 {
        0
    } else {
        posts_by(s.drop_last(), owner) + (if s.last().author == owner {
            1nat
        } else {
            0nat
        })
    }
}

/// The number of live relations in which `owner` is the follower.
pub open spec fn following_of(s: Seq<FollowRelation>, owner: u64) -> nat
    decreases s.len(),
{
    if s.len() == 0 {
        0
    } else {
        following_of(s.drop_last(), owner) + (if s.last().follower == owner {
            1nat
        } else {
            0nat
        })
    }
}

/// The number of live relations in which `owner` is followed.
pub open spec fn followers_of(s: Seq<FollowRelation>, owner: u64) -> nat
    decreases s.len(),
{
    if s.len() == 0 {
        0
    } else {
        followers_of(s.drop_last(), owner) + (if s.last().followed == owner {
            1nat
        } else {
            0nat
        })
    }
}

/// The number of set entries in a sequence of flags.
pub open spec fn count_true(s: Seq<bool>) -> nat
    decreases s.len(),
{
    if s.len() == 0 {
        0
    } else {
        count_true(s.drop_last()) + (if s.last() {
            1nat
        } else {
            0nat
        })
    }
}

/// An owner with no live post has a post count of zero.
pub proof fn lemma_posts_by_none(s: Seq<Post>, owner: u64)
    requires
        forall|i: int| 0 <= i < s.len() ==> s[i].author != owner,
    ensures
        posts_by(s, owner) == 0,
    decreases s.len(),
{
    if s.len() > 0 {
        lemma_posts_by_none(s.drop_last(), owner);
    }
}

/// An owner who follows nobody has a following count of zero.
pub proof fn lemma_following_of_none(s: Seq<FollowRelation>, owner: u64)
    requires
        forall|i: int| 0 <= i < s.len() ==> s[i].follower != owner,
    ensures
        following_of(s, owner) == 0,
    decreases s.len(),
{
    if s.len() > 0 {
        lemma_following_of_none(s.drop_last(), owner);
    }
}

/// An owner whom nobody follows has a followers count of zero.
pub proof fn lemma_followers_of_none(s: Seq<FollowRelation>, owner: u64)
    requires
        forall|i: int| 0 <= i < s.len() ==> s[i].followed != owner,
    ensures
        followers_of(s, owner) == 0,
    decreases s.len(),
{
    if s.len() > 0 {
        lemma_followers_of_none(s.drop_last(), owner);
    }
}

/// Appending a post raises exactly its author's count by one.
pub proof fn lemma_posts_by_push(s: Seq<Post>, p: Post, owner: u64)
    ensures
        posts_by(s.push(p), owner) == posts_by(s, owner) + (if p.author == owner {
            1nat
        } else {
            0nat
        }),
{
    assert(s.push(p).drop_last() =~= s);
}

/// Removing a post lowers exactly its author's count by one.
pub proof fn lemma_posts_by_remove(s: Seq<Post>, i: int, owner: u64)
    requires
        0 <= i < s.len(),
    ensures
        posts_by(s.remove(i), owner) + (if s[i].author == owner {
            1nat
        } else {
            0nat
        }) == posts_by(s, owner),
    decreases s.len(),
{
    if i == s.len() - 1 {
        assert(s.remove(i) =~= s.drop_last());
    } else {
        assert(s.remove(i).drop_last() =~= s.drop_last().remove(i));
        lemma_posts_by_remove(s.drop_last(), i, owner);
    }
}

/// A live post witnesses that its author's count is positive.
pub proof fn lemma_posts_by_member(s: Seq<Post>, i: int, owner: u64)
    requires
        0 <= i < s.len(),
        s[i].author == owner,
    ensures
        posts_by(s, owner) >= 1,
    decreases s.len(),
{
    if i < s.len() - 1 {
        lemma_posts_by_member(s.drop_last(), i, owner);
    }
}

/// Appending a relation raises exactly its follower's following count by one.
pub proof fn lemma_following_of_push(s: Seq<FollowRelation>, rel: FollowRelation, owner: u64)
    ensures
        following_of(s.push(rel), owner) == following_of(s, owner) + (if rel.follower == owner {
            1nat
        } else {
            0nat
        }),
{
    assert(s.push(rel).drop_last() =~= s);
}

/// Removing a relation lowers exactly its follower's following count by one.
pub proof fn lemma_following_of_remove(s: Seq<FollowRelation>, i: int, owner: u64)
    requires
        0 <= i < s.len(),
    ensures
        following_of(s.remove(i), owner) + (if s[i].follower == owner {
            1nat
        } else {
            0nat
        }) == following_of(s, owner),
    decreases s.len(),
{
    if i == s.len() - 1 {
        assert(s.remove(i) =~= s.drop_last());
    } else {
        assert(s.remove(i).drop_last() =~= s.drop_last().remove(i));
        lemma_following_of_remove(s.drop_last(), i, owner);
    }
}

/// A live relation witnesses that its follower's following count is positive.
pub proof fn lemma_following_of_member(s: Seq<FollowRelation>, i: int, owner: u64)
    requires
        0 <= i < s.len(),
        s[i].follower == owner,
    ensures
        following_of(s, owner) >= 1,
    decreases s.len(),
{
    if i < s.len() - 1 {
        lemma_following_of_member(s.drop_last(), i, owner);
    }
}

/// Appending a relation raises exactly its followed party's followers count
/// by one.
pub proof fn lemma_followers_of_push(s: Seq<FollowRelation>, rel: FollowRelation, owner: u64)
    ensures
        followers_of(s.push(rel), owner) == followers_of(s, owner) + (if rel.followed == owner {
            1nat
        } else {
            0nat
        }),
{
    assert(s.push(rel).drop_last() =~= s);
}

/// Removing a relation lowers exactly its followed party's followers count
/// by one.
pub proof fn lemma_followers_of_remove(s: Seq<FollowRelation>, i: int, owner: u64)
    requires
        0 <= i < s.len(),
    ensures
        followers_of(s.remove(i), owner) + (if s[i].followed == owner {
            1nat
        } else {
            0nat
        }) == followers_of(s, owner),
    decreases s.len(),
{
    if i == s.len() - 1 {
        assert(s.remove(i) =~= s.drop_last());
    } else {
        assert(s.remove(i).drop_last() =~= s.drop_last().remove(i));
        lemma_followers_of_remove(s.drop_last(), i, owner);
    }
}

/// A live relation witnesses that its followed party's followers count is
/// positive.
pub proof fn lemma_followers_of_member(s: Seq<FollowRelation>, i: int, owner: u64)
    requires
        0 <= i < s.len(),
        s[i].followed == owner,
    ensures
        followers_of(s, owner) >= 1,
    decreases s.len(),
{
    if i < s.len() - 1 {
        lemma_followers_of_member(s.drop_last(), i, owner);
    }
}

} // verus!
