use user_repo::{StoreError, User, UserRole, UserTable};

const HOUR: i64 = 3_600_000_000;

fn add(t: &mut UserTable, id: u128, name: &str, now: i64) -> User {
    let email = format!("{}@x.com", name);
    let token = format!("tok-{}", name);
    t.save_user(id, name, &email, "hash", &token, now + HOUR, now).unwrap()
}

#[test]
fn insert_then_redeem_flow() {
    let mut t = UserTable::new();
    let now: i64 = 1_700_000_000_000_000;
    let u = t.save_user(1, "alice", "a@x.com", "h1", "t1", now + HOUR, now).unwrap();
    assert!(!u.verified);
    assert_eq!(u.role, UserRole::User);
    assert_eq!(u.created_at, now);
    assert_eq!(u.updated_at, now);

    let found = t.get_user(None, None, None, Some("t1")).unwrap();
    assert_eq!(found.id, u.id);
    assert_eq!(found.name, "alice");
    assert!(!found.verified);
    assert_eq!(found.verification_token.as_deref(), Some("t1"));
    assert_eq!(found.token_expires_at, Some(now + HOUR));

    t.verifed_token("t1", now + 5);
    assert!(t.get_user(None, None, None, Some("t1")).is_none());
    let after = t.get_user(None, None, Some("a@x.com"), None).unwrap();
    assert!(after.verified);
    assert_eq!(after.verification_token, None);
    assert_eq!(after.token_expires_at, None);
    assert_eq!(after.updated_at, now + 5);
    assert_eq!(after.created_at, now);
}

#[test]
fn ids_are_fresh() {
    let mut t = UserTable::new();
    let a = add(&mut t, 10, "a", 100);
    let b = add(&mut t, 11, "b", 200);
    assert_ne!(a.id, b.id);
    let clash = t.save_user(10, "c", "c@x.com", "h", "tok-c", 300 + HOUR, 300);
    assert_eq!(clash.unwrap_err(), StoreError::DuplicateId);
    assert_eq!(t.get_user_count(), 2);
}

#[test]
fn duplicate_email_keeps_first_row() {
    let mut t = UserTable::new();
    let first = t.save_user(1, "alice", "a@x.com", "h1", "t1", HOUR, 0).unwrap();
    let second = t.save_user(2, "bob", "a@x.com", "h2", "t2", HOUR, 10);
    assert_eq!(second.unwrap_err(), StoreError::DuplicateEmail);
    assert_eq!(t.get_user_count(), 1);
    let kept = t.get_user(None, None, Some("a@x.com"), None).unwrap();
    assert_eq!(kept.id, first.id);
    assert_eq!(kept.name, "alice");
    assert_eq!(kept.password, "h1");
    assert!(t.get_user(Some(2), None, None, None).is_none());
}

#[test]
fn duplicate_name_and_token_rejected() {
    let mut t = UserTable::new();
    t.save_user(1, "alice", "a@x.com", "h1", "t1", HOUR, 0).unwrap();
    let by_name = t.save_user(2, "alice", "b@x.com", "h2", "t2", HOUR, 0);
    assert_eq!(by_name.unwrap_err(), StoreError::DuplicateName);
    let by_token = t.save_user(2, "bob", "b@x.com", "h2", "t1", HOUR, 0);
    assert_eq!(by_token.unwrap_err(), StoreError::DuplicateToken);
    assert_eq!(t.get_user_count(), 1);
}

#[test]
fn lookup_by_each_selector() {
    let mut t = UserTable::new();
    add(&mut t, 1, "alice", 0);
    add(&mut t, 2, "bob", 1);
    assert_eq!(t.get_user(Some(2), None, None, None).unwrap().name, "bob");
    assert_eq!(t.get_user(None, Some("alice"), None, None).unwrap().id, 1);
    assert_eq!(t.get_user(None, None, Some("bob@x.com"), None).unwrap().id, 2);
    assert_eq!(t.get_user(None, None, None, Some("tok-alice")).unwrap().id, 1);
    assert!(t.get_user(Some(3), None, None, None).is_none());
    assert!(t.get_user(None, Some("carol"), None, None).is_none());
    assert!(t.get_user(None, None, None, None).is_none());
}

#[test]
fn lookup_priority_id_first() {
    let mut t = UserTable::new();
    add(&mut t, 1, "alice", 0);
    add(&mut t, 2, "bob", 1);
    let u = t.get_user(Some(1), Some("bob"), Some("bob@x.com"), Some("tok-bob")).unwrap();
    assert_eq!(u.name, "alice");
    let v = t.get_user(None, Some("bob"), Some("alice@x.com"), None).unwrap();
    assert_eq!(v.id, 2);
    let w = t.get_user(Some(9), Some("bob"), None, None);
    assert!(w.is_none());
}

#[test]
fn second_page_holds_rows_eleven_to_twenty() {
    let mut t = UserTable::new();
    for k in 0..25u32 {
        add(&mut t, k as u128, &format!("user{}", k), k as i64 * 10);
    }
    assert_eq!(t.get_user_count(), 25);
    let page = t.get_users(2, 10);
    let ids: Vec<u128> = page.iter().map(|u| u.id).collect();
    // newest first: ids 24..=15 on page 1, 14..=5 on page 2
    assert_eq!(ids, (5..15u128).rev().collect::<Vec<u128>>());
    for w in page.windows(2) {
        assert!(w[0].created_at >= w[1].created_at);
    }
    let last = t.get_users(3, 10);
    assert_eq!(last.len(), 5);
    assert_eq!(last[4].id, 0);
    assert!(t.get_users(4, 10).is_empty());
    assert!(t.get_users(100, 10).is_empty());
}

#[test]
fn page_zero_is_page_one() {
    let mut t = UserTable::new();
    for k in 0..4u32 {
        add(&mut t, k as u128, &format!("u{}", k), k as i64);
    }
    let p0: Vec<u128> = t.get_users(0, 3).iter().map(|u| u.id).collect();
    let p1: Vec<u128> = t.get_users(1, 3).iter().map(|u| u.id).collect();
    assert_eq!(p0, vec![3, 2, 1]);
    assert_eq!(p0, p1);
    assert!(t.get_users(1, 0).is_empty());
}

#[test]
fn empty_table() {
    let t = UserTable::new();
    assert_eq!(t.get_user_count(), 0);
    assert!(t.get_users(1, 10).is_empty());
    assert!(t.get_user(Some(1), None, None, None).is_none());
}

#[test]
fn redeem_unknown_token_changes_nothing() {
    let mut t = UserTable::new();
    add(&mut t, 1, "alice", 0);
    let before = t.get_user(Some(1), None, None, None).unwrap();
    t.verifed_token("nope", 50);
    let after = t.get_user(Some(1), None, None, None).unwrap();
    assert_eq!(after.verified, before.verified);
    assert_eq!(after.updated_at, before.updated_at);
    assert_eq!(after.verification_token, before.verification_token);
}

#[test]
fn update_name_and_errors() {
    let mut t = UserTable::new();
    add(&mut t, 1, "alice", 0);
    add(&mut t, 2, "bob", 10);
    let u = t.update_user_name(1, "alicia", 20).unwrap();
    assert_eq!(u.name, "alicia");
    assert_eq!(u.email, "alice@x.com");
    assert_eq!(u.updated_at, 20);
    assert_eq!(u.created_at, 0);
    assert_eq!(t.get_user(None, Some("alicia"), None, None).unwrap().id, 1);
    assert!(t.get_user(None, Some("alice"), None, None).is_none());
    assert_eq!(t.update_user_name(1, "bob", 30).unwrap_err(), StoreError::DuplicateName);
    assert_eq!(t.update_user_name(1, "alicia", 30).unwrap().name, "alicia");
    assert_eq!(t.update_user_name(7, "zed", 30).unwrap_err(), StoreError::NotFound);
}

#[test]
fn update_role_and_password() {
    let mut t = UserTable::new();
    add(&mut t, 1, "alice", 0);
    let u = t.update_user_role(1, UserRole::Admin, 5).unwrap();
    assert_eq!(u.role, UserRole::Admin);
    assert_eq!(u.updated_at, 5);
    assert_eq!(t.update_user_role(2, UserRole::Moderator, 5).unwrap_err(), StoreError::NotFound);
    let p = t.update_user_password(1, String::from("h2"), 7).unwrap();
    assert_eq!(p.password, "h2");
    assert_eq!(p.role, UserRole::Admin);
    assert_eq!(
        t.update_user_password(3, String::from("h3"), 7).unwrap_err(),
        StoreError::NotFound
    );
}

#[test]
fn timestamps_never_go_back() {
    let mut t = UserTable::new();
    add(&mut t, 1, "alice", 100);
    let u = t.update_user_role(1, UserRole::Admin, 40).unwrap();
    assert_eq!(u.updated_at, 100);
    let b = add(&mut t, 2, "bob", 50);
    assert_eq!(b.created_at, 100);
}

#[test]
fn issue_token_overwrites() {
    let mut t = UserTable::new();
    add(&mut t, 1, "alice", 0);
    add(&mut t, 2, "bob", 0);
    t.add_verifed_token(1, "fresh", 999, 10).unwrap();
    let u = t.get_user(None, None, None, Some("fresh")).unwrap();
    assert_eq!(u.id, 1);
    assert_eq!(u.token_expires_at, Some(999));
    assert!(t.get_user(None, None, None, Some("tok-alice")).is_none());
    assert_eq!(t.add_verifed_token(1, "tok-bob", 999, 10).unwrap_err(), StoreError::DuplicateToken);
    assert!(t.add_verifed_token(9, "other", 999, 10).is_ok());
    assert!(t.get_user(None, None, None, Some("other")).is_none());
}
