use fatline_server::store::Store;
use fatline_server::user_models::{Profile, Signer, User};
use fatline_server::user_repo::{
    fetch_and_store_links, fetch_and_store_profile, FollowDirection, LinkAction, LinkInfo,
};

fn profile(fid: u64, username: Option<&str>) -> Profile {
    Profile {
        fid,
        username: username.map(|s| s.to_string()),
        display_name: None,
        profile_picture: None,
        bio: None,
        url: None,
    }
}

#[test]
fn empty_store_has_nothing() {
    let s = Store::new();
    assert!(s.get_user(1).is_none());
    assert!(s.get_signer(&vec![1, 2, 3]).is_none());
    assert!(!s.has_link(1, 2));
}

#[test]
fn upsert_and_get_user() {
    let mut s = Store::new();
    s.upsert_user(User::empty(5));
    let row = s.get_user(5).expect("row stored");
    assert_eq!(row.fid, 5);
    assert_eq!(row.username, None);
    assert!(s.get_user(6).is_none());
}

#[test]
fn upsert_replaces_all_columns() {
    let mut s = Store::new();
    s.upsert_user(profile(5, Some("alice")).to_user());
    s.upsert_user(profile(5, Some("bob")).to_user());
    let row = s.get_user(5).expect("row stored");
    assert_eq!(row.username.as_deref(), Some("bob"));
}

#[test]
fn users_never_duplicated_by_upsert() {
    // At most one row per fid, however often the same fid is written.
    let mut s = Store::new();
    s.upsert_user(User::empty(5));
    s.upsert_user(profile(5, Some("alice")).to_user());
    s.ensure_user(5);
    s.upsert_user(profile(5, Some("carol")).to_user());
    assert_eq!(s.users.len(), 1);
    assert_eq!(s.get_user(5).unwrap().username.as_deref(), Some("carol"));
}

#[test]
fn ensure_user_never_overwrites() {
    let mut s = Store::new();
    s.upsert_user(profile(5, Some("alice")).to_user());
    s.ensure_user(5);
    assert_eq!(s.get_user(5).unwrap().username.as_deref(), Some("alice"));
}

#[test]
fn insert_signer_creates_placeholder_user() {
    // Every signer's fid resolves in the user table.
    let mut s = Store::new();
    let stored = s.insert_signer(Signer { pk: vec![9; 32], fid: 77, active: true });
    assert_eq!(stored.fid, 77);
    assert!(stored.active);
    let user = s.get_user(77).expect("placeholder user for the signer's fid");
    assert_eq!(user.username, None);
    for signer in &s.signers {
        assert!(s.get_user(signer.fid).is_some());
    }
}

#[test]
fn signer_add_then_remove_ends_inactive() {
    // A revoke arriving after an add leaves the key revoked.
    let mut s = Store::new();
    let pk = vec![7u8; 32];
    s.insert_signer(Signer { pk: pk.clone(), fid: 9, active: true });
    s.insert_signer(Signer { pk: pk.clone(), fid: 9, active: false });
    let row = s.get_signer(&pk).expect("signer stored");
    assert!(!row.active);
    assert_eq!(s.signers.len(), 1);
}

#[test]
fn get_signer_misses_on_unknown_key() {
    let mut s = Store::new();
    s.insert_signer(Signer { pk: vec![7u8; 32], fid: 9, active: true });
    assert!(s.get_signer(&vec![8u8; 32]).is_none());
}

#[test]
fn link_rows_keep_endpoints_in_users() {
    // Both endpoints of every stored link resolve in the user table.
    let mut s = Store::new();
    let actions = vec![
        LinkAction::AddFollow(LinkInfo { source_fid: 1, target_fid: 2, timestamp: 10 }),
        LinkAction::AddFollow(LinkInfo { source_fid: 2, target_fid: 3, timestamp: 11 }),
    ];
    fetch_and_store_links(&mut s, 1, FollowDirection::Following, &actions);
    for link in &s.links {
        assert!(s.get_user(link.fid).is_some());
        assert!(s.get_user(link.target).is_some());
    }
    assert!(s.has_link(1, 2));
    assert!(s.has_link(2, 3));
    assert!(!s.has_link(2, 1));
}

#[test]
fn fetch_and_store_profile_is_idempotent() {
    // Same upstream row twice: the table is exactly what one write leaves.
    let mut s = Store::new();
    let first = fetch_and_store_profile(&mut s, profile(42, Some("alice")));
    let after_one = s.users.clone();
    let second = fetch_and_store_profile(&mut s, profile(42, Some("alice")));
    assert_eq!(first, second);
    assert_eq!(s.users, after_one);
    assert_eq!(s.users.len(), 1);
}
