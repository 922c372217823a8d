use solx::errors::ErrorCode;
use solx::ledger::SocialLedger;

fn two_authors() -> SocialLedger {
    let mut l = SocialLedger::new();
    l.create_author(1, "Alice".to_string(), String::new()).unwrap();
    l.create_author(2, "Bob".to_string(), String::new()).unwrap();
    l
}

#[test]
fn follow_updates_both_counters() {
    let mut l = two_authors();
    assert_eq!(l.follow(1, 2), Ok(()));
    assert_eq!(l.get_author(1).unwrap().following, 1);
    assert_eq!(l.get_author(1).unwrap().followers, 0);
    assert_eq!(l.get_author(2).unwrap().followers, 1);
    assert_eq!(l.get_author(2).unwrap().following, 0);
    let rel = l.get_relation(2, 1).unwrap();
    assert_eq!(rel.follower, 1);
    assert_eq!(rel.followed, 2);
}

#[test]
fn follow_yourself_rejected() {
    let mut l = two_authors();
    assert_eq!(l.follow(1, 1), Err(ErrorCode::CanNotFollowYourself));
    assert_eq!(l.get_author(1).unwrap().following, 0);
    assert_eq!(l.get_author(1).unwrap().followers, 0);
}

#[test]
fn duplicate_follow_collides() {
    let mut l = two_authors();
    l.follow(1, 2).unwrap();
    assert_eq!(l.follow(1, 2), Err(ErrorCode::AddressCollision));
    assert_eq!(l.get_author(1).unwrap().following, 1);
    assert_eq!(l.get_author(2).unwrap().followers, 1);
}

#[test]
fn follow_back_is_a_distinct_relation() {
    let mut l = two_authors();
    l.follow(1, 2).unwrap();
    assert_eq!(l.follow(2, 1), Ok(()));
    assert_eq!(l.get_author(1).unwrap().following, 1);
    assert_eq!(l.get_author(1).unwrap().followers, 1);
    assert_eq!(l.get_author(2).unwrap().following, 1);
    assert_eq!(l.get_author(2).unwrap().followers, 1);
}

#[test]
fn follow_missing_profile_collides() {
    let mut l = SocialLedger::new();
    l.create_author(1, "Alice".to_string(), String::new()).unwrap();
    assert_eq!(l.follow(1, 9), Err(ErrorCode::AddressCollision));
    assert_eq!(l.follow(9, 1), Err(ErrorCode::AddressCollision));
    assert_eq!(l.get_author(1).unwrap().following, 0);
    assert_eq!(l.get_author(1).unwrap().followers, 0);
}

#[test]
fn unfollow_updates_both_counters() {
    let mut l = two_authors();
    l.follow(1, 2).unwrap();
    assert_eq!(l.unfollow(1, 2), Ok(()));
    assert_eq!(l.get_author(1).unwrap().following, 0);
    assert_eq!(l.get_author(2).unwrap().followers, 0);
    assert!(l.get_relation(2, 1).is_none());
}

#[test]
fn unfollow_without_relation_collides() {
    let mut l = two_authors();
    assert_eq!(l.unfollow(1, 2), Err(ErrorCode::AddressCollision));
    assert_eq!(l.get_author(1).unwrap().following, 0);
    assert_eq!(l.get_author(2).unwrap().followers, 0);
}

#[test]
fn unfollow_yourself_rejected() {
    let mut l = two_authors();
    assert_eq!(l.unfollow(2, 2), Err(ErrorCode::CanNotFollowYourself));
}

#[test]
fn unfollow_is_directional() {
    let mut l = two_authors();
    l.follow(1, 2).unwrap();
    l.follow(2, 1).unwrap();
    l.unfollow(1, 2).unwrap();
    assert!(l.get_relation(2, 1).is_none());
    let back = l.get_relation(1, 2).unwrap();
    assert_eq!(back.follower, 2);
    assert_eq!(back.followed, 1);
    assert_eq!(l.get_author(1).unwrap().following, 0);
    assert_eq!(l.get_author(1).unwrap().followers, 1);
    assert_eq!(l.get_author(2).unwrap().following, 1);
    assert_eq!(l.get_author(2).unwrap().followers, 0);
}

#[test]
fn refollow_after_unfollow() {
    let mut l = two_authors();
    l.follow(1, 2).unwrap();
    l.unfollow(1, 2).unwrap();
    assert_eq!(l.follow(1, 2), Ok(()));
    assert_eq!(l.get_author(1).unwrap().following, 1);
    assert_eq!(l.get_author(2).unwrap().followers, 1);
}

#[test]
fn counters_stay_in_lockstep_over_a_session() {
    let mut l = SocialLedger::new();
    for id in 1..=4u64 {
        l.create_author(id, format!("author{}", id), String::new()).unwrap();
    }
    l.follow(1, 2).unwrap();
    l.follow(1, 3).unwrap();
    l.follow(1, 4).unwrap();
    l.follow(2, 1).unwrap();
    assert_eq!(l.get_author(1).unwrap().following, 3);
    assert_eq!(l.get_author(1).unwrap().followers, 1);
    l.unfollow(1, 3).unwrap();
    assert_eq!(l.get_author(1).unwrap().following, 2);
    assert_eq!(l.get_author(3).unwrap().followers, 0);
    assert_eq!(l.get_author(2).unwrap().followers, 1);
    assert_eq!(l.get_author(4).unwrap().followers, 1);
}
