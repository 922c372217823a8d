use solx::counter::{counter_decrement, counter_increment};
use solx::errors::ErrorCode;
use solx::ledger::SocialLedger;

#[test]
fn create_author_initial_counters() {
    let mut l = SocialLedger::new();
    assert_eq!(l.create_author(1, "Alice".to_string(), "hi".to_string()), Ok(()));
    let a = l.get_author(1).unwrap();
    assert_eq!(a.name, "Alice");
    assert_eq!(a.bio, "hi");
    assert_eq!(a.owner, 1);
    assert_eq!(a.post_count, 0);
    assert_eq!(a.followers, 0);
    assert_eq!(a.following, 0);
}

#[test]
fn create_author_name_too_long() {
    let mut l = SocialLedger::new();
    let name: String = "x".repeat(40);
    assert_eq!(l.create_author(1, name, "bio".to_string()), Err(ErrorCode::NameTooLong));
    assert!(l.get_author(1).is_none());
}

#[test]
fn create_author_name_bounds() {
    let mut l = SocialLedger::new();
    assert_eq!(l.create_author(1, "x".repeat(32), String::new()), Ok(()));
    assert_eq!(l.create_author(2, "x".repeat(33), String::new()), Err(ErrorCode::NameTooLong));
    assert!(l.get_author(2).is_none());
}

#[test]
fn create_author_bio_bounds() {
    let mut l = SocialLedger::new();
    assert_eq!(l.create_author(1, "a".to_string(), "b".repeat(100)), Ok(()));
    assert_eq!(
        l.create_author(2, "a".to_string(), "b".repeat(101)),
        Err(ErrorCode::BioTooLong)
    );
    assert!(l.get_author(2).is_none());
}

#[test]
fn second_create_author_collides() {
    let mut l = SocialLedger::new();
    assert_eq!(l.create_author(7, "first".to_string(), String::new()), Ok(()));
    assert_eq!(
        l.create_author(7, "second".to_string(), String::new()),
        Err(ErrorCode::AddressCollision)
    );
    assert_eq!(l.get_author(7).unwrap().name, "first");
}

#[test]
fn edit_name_replaces_in_place() {
    let mut l = SocialLedger::new();
    l.create_author(1, "old".to_string(), "bio".to_string()).unwrap();
    assert_eq!(l.edit_name(1, 1, "new".to_string()), Ok(()));
    let a = l.get_author(1).unwrap();
    assert_eq!(a.name, "new");
    assert_eq!(a.bio, "bio");
}

#[test]
fn edit_name_unauthorized() {
    let mut l = SocialLedger::new();
    l.create_author(1, "old".to_string(), String::new()).unwrap();
    assert_eq!(l.edit_name(2, 1, "new".to_string()), Err(ErrorCode::Unauthorized));
    assert_eq!(l.get_author(1).unwrap().name, "old");
}

#[test]
fn edit_name_too_long() {
    let mut l = SocialLedger::new();
    l.create_author(1, "old".to_string(), String::new()).unwrap();
    assert_eq!(l.edit_name(1, 1, "y".repeat(33)), Err(ErrorCode::NameTooLong));
    assert_eq!(l.get_author(1).unwrap().name, "old");
}

#[test]
fn edit_name_missing_profile() {
    let mut l = SocialLedger::new();
    assert_eq!(l.edit_name(1, 1, "new".to_string()), Err(ErrorCode::AddressCollision));
}

#[test]
fn edit_bio_replaces_in_place() {
    let mut l = SocialLedger::new();
    l.create_author(1, "name".to_string(), "old".to_string()).unwrap();
    assert_eq!(l.edit_bio(1, 1, "new".to_string()), Ok(()));
    let a = l.get_author(1).unwrap();
    assert_eq!(a.bio, "new");
    assert_eq!(a.name, "name");
}

#[test]
fn edit_bio_unauthorized() {
    let mut l = SocialLedger::new();
    l.create_author(1, "name".to_string(), "old".to_string()).unwrap();
    assert_eq!(l.edit_bio(9, 1, "new".to_string()), Err(ErrorCode::Unauthorized));
    assert_eq!(l.get_author(1).unwrap().bio, "old");
}

#[test]
fn edit_bio_too_long() {
    let mut l = SocialLedger::new();
    l.create_author(1, "name".to_string(), "old".to_string()).unwrap();
    assert_eq!(l.edit_bio(1, 1, "z".repeat(101)), Err(ErrorCode::BioTooLong));
    assert_eq!(l.get_author(1).unwrap().bio, "old");
}

#[test]
fn create_post_increments_count() {
    let mut l = SocialLedger::new();
    l.create_author(1, "Alice".to_string(), "hi".to_string()).unwrap();
    assert_eq!(l.create_post(1, 1, 100, "hello".to_string()), Ok(()));
    let p = l.get_post(1, 100).unwrap();
    assert_eq!(p.author, 1);
    assert_eq!(p.content, "hello");
    assert_eq!(p.timestamp, 100);
    assert_eq!(l.get_author(1).unwrap().post_count, 1);
}

#[test]
fn delete_post_decrements_count() {
    let mut l = SocialLedger::new();
    l.create_author(1, "Alice".to_string(), "hi".to_string()).unwrap();
    l.create_post(1, 1, 100, "hello".to_string()).unwrap();
    assert_eq!(l.delete_post(1, 1, 100), Ok(()));
    assert!(l.get_post(1, 100).is_none());
    assert_eq!(l.get_author(1).unwrap().post_count, 0);
}

#[test]
fn create_post_content_bounds() {
    let mut l = SocialLedger::new();
    l.create_author(1, "a".to_string(), String::new()).unwrap();
    assert_eq!(l.create_post(1, 1, 1, "c".repeat(256)), Ok(()));
    assert_eq!(l.create_post(1, 1, 2, "c".repeat(257)), Err(ErrorCode::ContentTooLong));
    assert!(l.get_post(1, 2).is_none());
    assert_eq!(l.get_author(1).unwrap().post_count, 1);
}

#[test]
fn create_post_invalid_timestamp() {
    let mut l = SocialLedger::new();
    l.create_author(1, "a".to_string(), String::new()).unwrap();
    assert_eq!(l.create_post(1, 1, 0, "x".to_string()), Err(ErrorCode::InvalidTimestamp));
    assert_eq!(l.create_post(1, 1, -5, "x".to_string()), Err(ErrorCode::InvalidTimestamp));
    assert_eq!(l.get_author(1).unwrap().post_count, 0);
}

#[test]
fn duplicate_post_collides() {
    let mut l = SocialLedger::new();
    l.create_author(1, "a".to_string(), String::new()).unwrap();
    l.create_post(1, 1, 100, "first".to_string()).unwrap();
    assert_eq!(
        l.create_post(1, 1, 100, "second".to_string()),
        Err(ErrorCode::AddressCollision)
    );
    assert_eq!(l.get_post(1, 100).unwrap().content, "first");
    assert_eq!(l.get_author(1).unwrap().post_count, 1);
}

#[test]
fn create_post_unauthorized() {
    let mut l = SocialLedger::new();
    l.create_author(1, "a".to_string(), String::new()).unwrap();
    assert_eq!(l.create_post(2, 1, 100, "x".to_string()), Err(ErrorCode::Unauthorized));
    assert!(l.get_post(1, 100).is_none());
}

#[test]
fn create_post_missing_author() {
    let mut l = SocialLedger::new();
    assert_eq!(l.create_post(1, 1, 100, "x".to_string()), Err(ErrorCode::AddressCollision));
}

#[test]
fn delete_post_by_non_author() {
    let mut l = SocialLedger::new();
    l.create_author(1, "a".to_string(), String::new()).unwrap();
    l.create_author(2, "b".to_string(), String::new()).unwrap();
    l.create_post(1, 1, 100, "keep".to_string()).unwrap();
    assert_eq!(l.delete_post(2, 1, 100), Err(ErrorCode::CanNotDeletePost));
    assert_eq!(l.get_post(1, 100).unwrap().content, "keep");
    assert_eq!(l.get_author(1).unwrap().post_count, 1);
}

#[test]
fn delete_post_missing() {
    let mut l = SocialLedger::new();
    l.create_author(1, "a".to_string(), String::new()).unwrap();
    assert_eq!(l.delete_post(1, 1, 100), Err(ErrorCode::AddressCollision));
}

#[test]
fn post_count_tracks_creates_minus_deletes() {
    let mut l = SocialLedger::new();
    l.create_author(1, "a".to_string(), String::new()).unwrap();
    l.create_post(1, 1, 10, "p1".to_string()).unwrap();
    l.create_post(1, 1, 20, "p2".to_string()).unwrap();
    l.create_post(1, 1, 30, "p3".to_string()).unwrap();
    assert_eq!(l.get_author(1).unwrap().post_count, 3);
    l.delete_post(1, 1, 20).unwrap();
    l.delete_post(1, 1, 10).unwrap();
    assert_eq!(l.get_author(1).unwrap().post_count, 1);
    assert!(l.get_post(1, 10).is_none());
    assert!(l.get_post(1, 20).is_none());
    assert_eq!(l.get_post(1, 30).unwrap().content, "p3");
}

#[test]
fn recreate_post_at_freed_address() {
    let mut l = SocialLedger::new();
    l.create_author(1, "a".to_string(), String::new()).unwrap();
    l.create_post(1, 1, 100, "first".to_string()).unwrap();
    l.delete_post(1, 1, 100).unwrap();
    assert_eq!(l.create_post(1, 1, 100, "second".to_string()), Ok(()));
    assert_eq!(l.get_post(1, 100).unwrap().content, "second");
    assert_eq!(l.get_author(1).unwrap().post_count, 1);
}

#[test]
fn counter_increment_checks_overflow() {
    assert_eq!(counter_increment(5), Ok(6));
    assert_eq!(counter_increment(u64::MAX - 1), Ok(u64::MAX));
    assert_eq!(counter_increment(u64::MAX), Err(ErrorCode::Overflow));
}

#[test]
fn counter_decrement_checks_underflow() {
    assert_eq!(counter_decrement(5), Ok(4));
    assert_eq!(counter_decrement(1), Ok(0));
    assert_eq!(counter_decrement(0), Err(ErrorCode::Overflow));
}
