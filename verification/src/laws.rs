//! The ledger's global guarantees, proved from well-formedness.
//!
//! Each lemma states a property that holds of every well-formed ledger, and
//! so, by the operations' contracts, of every ledger reachable from
//! [`SocialLedger::new`](crate::ledger::SocialLedger::new).

use vstd::prelude::*;

use crate::counts::{
    count_true, followers_of, following_of, lemma_posts_by_push, lemma_posts_by_remove, posts_by,
};
use crate::ledger::SocialLedger;
use crate::records::{with_followers, with_following, Author, Post};
use crate::state::{
    author_at, author_index, author_of, author_ok, authors_unique, has_author,
    lemma_author_index_is,
};

verus! {

/// At most one live profile exists per owner identity: two live profiles
/// with the same owner are the same record.
pub proof fn lemma_at_most_one_author(l: SocialLedger, i: int, j: int)
    requires
        l.wf(),
        0 <= i < l.authors().len(),
        0 <= j < l.authors().len(),
        l.authors()[i].owner == l.authors()[j].owner,
    ensures
        i == j,
{
    if i < j {
        assert(l.authors()[i].owner != l.authors()[j].owner);
    } else if j < i {
        assert(l.authors()[j].owner != l.authors()[i].owner);
    }
}

/// At most one live post exists per (author, timestamp) address: two live
/// posts with the same address are the same record.
pub proof fn lemma_at_most_one_post(l: SocialLedger, i: int, j: int)
    requires
        l.wf(),
        0 <= i < l.posts().len(),
        0 <= j < l.posts().len(),
        l.posts()[i].author == l.posts()[j].author,
        l.posts()[i].timestamp == l.posts()[j].timestamp,
    ensures
        i == j,
{
    if i < j {
        assert(!(l.posts()[i].author == l.posts()[j].author && l.posts()[i].timestamp
            == l.posts()[j].timestamp));
    } else if j < i {
        assert(!(l.posts()[j].author == l.posts()[i].author && l.posts()[j].timestamp
            == l.posts()[i].timestamp));
    }
}

/// At most one live relation exists per (followed, follower) pair: two live
/// relations with the same pair are the same record.
pub proof fn lemma_at_most_one_relation(l: SocialLedger, i: int, j: int)
    requires
        l.wf(),
        0 <= i < l.relations().len(),
        0 <= j < l.relations().len(),
        l.relations()[i].followed == l.relations()[j].followed,
        l.relations()[i].follower == l.relations()[j].follower,
    ensures
        i == j,
{
    if i < j {
        assert(!(l.relations()[i].followed == l.relations()[j].followed
            && l.relations()[i].follower == l.relations()[j].follower));
    } else if j < i {
        assert(!(l.relations()[j].followed == l.relations()[i].followed
            && l.relations()[j].follower == l.relations()[i].follower));
    }
}

/// No live relation ever lets an identity follow itself.
pub proof fn lemma_no_self_relation(l: SocialLedger, i: int)
    requires
        l.wf(),
        0 <= i < l.relations().len(),
    ensures
        l.relations()[i].follower != l.relations()[i].followed,
{
    assert(crate::state::relation_ok(l.relations()[i], l.authors()));
}

/// The addressing scheme is sound: the profile addressed by `owner` records
/// `owner` as its owner.
pub proof fn lemma_author_addressing(l: SocialLedger, owner: u64)
    requires
        l.wf(),
        has_author(l.authors(), owner),
    ensures
        author_of(l.authors(), owner).owner == owner,
        0 <= author_index(l.authors(), owner) < l.authors().len(),
{
    let w = author_index(l.authors(), owner);
    assert(author_at(l.authors(), w, owner));
}

/// A profile's post counter always equals its number of live posts. Since
/// each successful create adds one live post by the author and each
/// successful delete removes one, after N creates and M deletes the counter
/// reads exactly N - M, and as an unsigned count it is never negative.
pub proof fn lemma_post_count_consistent(l: SocialLedger, owner: u64)
    requires
        l.wf(),
        has_author(l.authors(), owner),
    ensures
        author_of(l.authors(), owner).post_count == posts_by(l.posts(), owner),
{
    let w = author_index(l.authors(), owner);
    assert(author_at(l.authors(), w, owner));
    assert(author_ok(l.authors()[w], l.posts(), l.relations()));
}

/// One successful post creation, seen on the post store: a new post by
/// `author` appears at the end. This is exactly the store transition that
/// [`SocialLedger::create_post`](crate::ledger::SocialLedger::create_post)
/// promises on success.
pub open spec fn create_step(p1: Seq<Post>, p2: Seq<Post>, author: u64) -> bool {
    exists|p: Post| p.author == author && p2 == p1.push(p)
}

/// One successful post deletion, seen on the post store: a live post by
/// `author` disappears. This is exactly the store transition that
/// [`SocialLedger::delete_post`](crate::ledger::SocialLedger::delete_post)
/// promises on success.
pub open spec fn delete_step(p1: Seq<Post>, p2: Seq<Post>, author: u64) -> bool {
    exists|i: int| 0 <= i < p1.len() && p1[i].author == author && p2 == p1.remove(i)
}

/// After any history of N successful post creations and M successful post
/// deletions on the same author, the author's number of live posts has moved
/// by exactly N - M; as a count it is never negative. `stores` lists the
/// post store before and after each step, and `created[k]` says whether step
/// k was a creation (N = `count_true(created)`) or a deletion (M the rest).
/// Together with `lemma_post_count_consistent`, the author's post_count
/// field reads N - M after any such history that starts at profile creation.
pub proof fn lemma_post_count_over_history(stores: Seq<Seq<Post>>, created: Seq<bool>, author: u64)
    requires
        stores.len() == created.len() + 1,
        forall|k: int|
            #![trigger created[k]]
            0 <= k < created.len() ==> (if created[k] {
                create_step(stores[k], stores[k + 1], author)
            } else {
                delete_step(stores[k], stores[k + 1], author)
            }),
    ensures
        posts_by(stores.last(), author) + (created.len() - count_true(created)) == posts_by(
            stores[0],
            author,
        ) + count_true(created),
    decreases created.len(),
{
    if created.len() > 0 {
        let pp = stores.drop_last();
        let ss = created.drop_last();
        assert forall|k: int|
            #![trigger ss[k]]
            0 <= k < ss.len() implies (if ss[k] {
            create_step(pp[k], pp[k + 1], author)
        } else {
            delete_step(pp[k], pp[k + 1], author)
        }) by {
            assert(ss[k] == created[k]);
            assert(pp[k] == stores[k]);
            assert(pp[k + 1] == stores[k + 1]);
        }
        lemma_post_count_over_history(pp, ss, author);
        let k = created.len() - 1;
        assert(pp.last() == stores[k]);
        assert(stores.last() == stores[k + 1]);
        if created[k] {
            let p = choose|p: Post| p.author == author && stores[k + 1] == stores[k].push(p);
            lemma_posts_by_push(stores[k], p, author);
        } else {
            let i = choose|i: int|
                0 <= i < stores[k].len() && stores[k][i].author == author && stores[k + 1]
                    == stores[k].remove(i);
            lemma_posts_by_remove(stores[k], i, author);
        }
    }
}

/// A follow or unfollow moves its two counters in lockstep and touches
/// nothing else. The hypothesis is the exact author-store transition that
/// [`SocialLedger::follow`](crate::ledger::SocialLedger::follow) and
/// [`SocialLedger::unfollow`](crate::ledger::SocialLedger::unfollow) promise
/// on success (there with `x`/`y` one above, resp. one below, the old
/// counters): exactly one following counter becomes `x`, exactly one
/// followers counter becomes `y`, and every other profile and every other
/// field is left as it was.
pub proof fn lemma_follow_lockstep(
    s1: Seq<Author>,
    s2: Seq<Author>,
    follower: u64,
    followed: u64,
    x: u64,
    y: u64,
)
    requires
        authors_unique(s1),
        follower != followed,
        has_author(s1, follower),
        has_author(s1, followed),
        s2 == s1.update(
            author_index(s1, follower),
            with_following(author_of(s1, follower), x),
        ).update(author_index(s1, followed), with_followers(author_of(s1, followed), y)),
    ensures
        s2.len() == s1.len(),
        has_author(s2, follower) && has_author(s2, followed),
        author_of(s2, follower) == with_following(author_of(s1, follower), x),
        author_of(s2, followed) == with_followers(author_of(s1, followed), y),
        forall|j: int|
            0 <= j < s1.len() && s1[j].owner != follower && s1[j].owner != followed
                ==> #[trigger] s2[j] == s1[j],
{
    let ci = author_index(s1, follower);
    let fi = author_index(s1, followed);
    assert(author_at(s1, ci, follower));
    assert(author_at(s1, fi, followed));
    assert forall|x1: int, y1: int| 0 <= x1 < y1 < s2.len() implies s2[x1].owner != s2[y1].owner by {
        assert(s1[x1].owner != s1[y1].owner);
    }
    lemma_author_index_is(s2, ci, follower);
    lemma_author_index_is(s2, fi, followed);
}

/// Follow counters move in lockstep with the live relations: a profile's
/// followers counter equals the number of live relations in which it is
/// followed, and its following counter the number in which it is the
/// follower.
pub proof fn lemma_follow_counts_consistent(l: SocialLedger, owner: u64)
    requires
        l.wf(),
        has_author(l.authors(), owner),
    ensures
        author_of(l.authors(), owner).followers == followers_of(l.relations(), owner),
        author_of(l.authors(), owner).following == following_of(l.relations(), owner),
{
    let w = author_index(l.authors(), owner);
    assert(author_at(l.authors(), w, owner));
    assert(author_ok(l.authors()[w], l.posts(), l.relations()));
}

} // verus!
