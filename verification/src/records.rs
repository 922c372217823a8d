//! The three persisted record kinds.
//!
//! Identities are plain 64-bit values standing for the cryptographic owner
//! keys of the host ledger; the core only ever compares them. Each record is
//! addressed deterministically by a stable key tuple: an `Author` by its
//! owner, a `Post` by (author, timestamp), a `FollowRelation` by
//! (followed, follower).

use vstd::prelude::*;

verus! {

/// An author profile, one per owner identity.
pub struct Author {
    /// Display name, at most 32 units.
    pub name: String,
    /// The identity that created the profile and alone may mutate it.
    pub owner: u64,
    /// Profile text, at most 100 units.
    pub bio: String,
    /// Number of live posts by this author.
    pub post_count: u64,
    /// Number of live relations in which this author is followed.
    pub followers: u64,
    /// Number of live relations in which this author is the follower.
    pub following: u64,
}

/// A post, addressed by its author and timestamp; never edited after
/// creation.
pub struct Post {
    /// The owner identity of the author profile this post is nested under.
    pub author: u64,
    /// Post body, at most 256 units.
    pub content: String,
    /// Creation time chosen by the author, strictly positive.
    pub timestamp: i64,
}

/// A directed follow edge, addressed by the (followed, follower) pair.
pub struct FollowRelation {
    /// The identity doing the following.
    pub follower: u64,
    /// The identity being followed.
    pub followed: u64,
}

/// A freshly created profile: the given strings, all counters zero.
pub open spec fn new_author(owner: u64, name: String, bio: String) -> Author {
    Author { name, owner, bio, post_count: 0, followers: 0, following: 0 }
}

/// A freshly created post.
pub open spec fn new_post(author: u64, content: String, timestamp: i64) -> Post {
    Post { author, content, timestamp }
}

/// A freshly created follow edge.
pub open spec fn new_relation(follower: u64, followed: u64) -> FollowRelation {
    FollowRelation { follower, followed }
}

/// The same profile with its name replaced.
pub open spec fn with_name(a: Author, name: String) -> Author {
    Author {
        name,
        owner: a.owner,
        bio: a.bio,
        post_count: a.post_count,
        followers: a.followers,
        following: a.following,
    }
}

/// The same profile with its bio replaced.
pub open spec fn with_bio(a: Author, bio: String) -> Author {
    Author {
        name: a.name,
        owner: a.owner,
        bio,
        post_count: a.post_count,
        followers: a.followers,
        following: a.following,
    }
}

/// The same profile with its post counter replaced.
pub open spec fn with_post_count(a: Author, post_count: u64) -> Author {
    Author {
        name: a.name,
        owner: a.owner,
        bio: a.bio,
        post_count,
        followers: a.followers,
        following: a.following,
    }
}

/// The same profile with its followers counter replaced.
pub open spec fn with_followers(a: Author, followers: u64) -> Author {
    Author {
        name: a.name,
        owner: a.owner,
        bio: a.bio,
        post_count: a.post_count,
        followers,
        following: a.following,
    }
}

/// The same profile with its following counter replaced.
pub open spec fn with_following(a: Author, following: u64) -> Author {
    Author {
        name: a.name,
        owner: a.owner,
        bio: a.bio,
        post_count: a.post_count,
        followers: a.followers,
        following,
    }
}

} // verus!
