use fatline_server::error::ServerError;
use fatline_server::store::Store;
use fatline_server::user_models::{Notification, Profile};
use fatline_server::user_repo::{
    fc_to_unix, fetch_and_store_links, fetch_and_store_profile, fetch_user_latest_notification_type,
    get_profile_links, get_user_notifications, get_user_profile, FollowDirection, LinkAction,
    LinkInfo, ReadThrough,
};

fn profile(fid: u64, username: Option<&str>) -> Profile {
    Profile {
        fid,
        username: username.map(|s| s.to_string()),
        display_name: None,
        profile_picture: None,
        bio: None,
        url: None,
    }
}

#[test]
fn read_through_miss_then_hit() {
    // Unknown fid: first read directs to the hub; after the fetched profile
    // is stored, the same read is served from the store.
    let mut s = Store::new();
    assert_eq!(get_user_profile(&s, 42, false), ReadThrough::Fetch);
    let fetched = profile(42, Some("alice"));
    let returned = fetch_and_store_profile(&mut s, fetched.clone());
    assert_eq!(returned, fetched);
    match get_user_profile(&s, 42, false) {
        ReadThrough::Hit(p) => assert_eq!(p, fetched),
        ReadThrough::Fetch => panic!("second read must be served from the store"),
    }
}

#[test]
fn force_fetch_bypasses_cache() {
    let mut s = Store::new();
    fetch_and_store_profile(&mut s, profile(42, Some("alice")));
    assert_eq!(get_user_profile(&s, 42, true), ReadThrough::Fetch);
}

#[test]
fn follow_churn_round_trip() {
    // Add(1->2), Add(1->3), Remove(1->2): links end with exactly (1,3);
    // users 1, 2, 3 all exist (2 as an empty placeholder).
    let mut s = Store::new();
    let actions = vec![
        LinkAction::AddFollow(LinkInfo { source_fid: 1, target_fid: 2, timestamp: 100 }),
        LinkAction::AddFollow(LinkInfo { source_fid: 1, target_fid: 3, timestamp: 101 }),
        LinkAction::RemoveFollow(LinkInfo { source_fid: 1, target_fid: 2, timestamp: 102 }),
    ];
    let following = fetch_and_store_links(&mut s, 1, FollowDirection::Following, &actions);
    assert_eq!(s.links.len(), 1);
    assert!(s.has_link(1, 3));
    assert!(!s.has_link(1, 2));
    assert!(s.get_user(1).is_some());
    assert_eq!(s.get_user(2).unwrap().username, None);
    assert!(s.get_user(3).is_some());
    let fids: Vec<u64> = following.iter().map(|p| p.fid).collect();
    assert_eq!(fids, vec![3]);
}

#[test]
fn add_then_remove_same_edge_converges() {
    // A sync whose actions add and then remove one edge leaves no row for
    // it, even when the edge was stored before the sync.
    let mut s = Store::new();
    let seed = vec![LinkAction::AddFollow(LinkInfo { source_fid: 1, target_fid: 2, timestamp: 1 })];
    fetch_and_store_links(&mut s, 1, FollowDirection::Following, &seed);
    assert!(s.has_link(1, 2));
    let churn = vec![
        LinkAction::AddFollow(LinkInfo { source_fid: 1, target_fid: 2, timestamp: 2 }),
        LinkAction::RemoveFollow(LinkInfo { source_fid: 1, target_fid: 2, timestamp: 3 }),
    ];
    fetch_and_store_links(&mut s, 1, FollowDirection::Following, &churn);
    assert!(!s.has_link(1, 2));
}

#[test]
fn link_timestamps_are_unix_seconds() {
    assert_eq!(fc_to_unix(0), 1609459200);
    assert_eq!(fc_to_unix(5), 1609459205);
    let mut s = Store::new();
    let actions =
        vec![LinkAction::AddFollow(LinkInfo { source_fid: 1, target_fid: 2, timestamp: 5 })];
    fetch_and_store_links(&mut s, 1, FollowDirection::Following, &actions);
    assert_eq!(s.links[0].timestamp, 1609459205);
}

#[test]
fn existing_edge_keeps_stored_timestamp() {
    // Re-adding a stored edge is `on conflict do nothing`.
    let mut s = Store::new();
    let first = vec![LinkAction::AddFollow(LinkInfo { source_fid: 1, target_fid: 2, timestamp: 1 })];
    fetch_and_store_links(&mut s, 1, FollowDirection::Following, &first);
    let second =
        vec![LinkAction::AddFollow(LinkInfo { source_fid: 1, target_fid: 2, timestamp: 9 })];
    fetch_and_store_links(&mut s, 1, FollowDirection::Following, &second);
    assert_eq!(s.links.len(), 1);
    assert_eq!(s.links[0].timestamp, fc_to_unix(1));
}

#[test]
fn profile_links_by_direction() {
    let mut s = Store::new();
    let actions = vec![
        LinkAction::AddFollow(LinkInfo { source_fid: 1, target_fid: 2, timestamp: 0 }),
        LinkAction::AddFollow(LinkInfo { source_fid: 3, target_fid: 1, timestamp: 0 }),
    ];
    fetch_and_store_links(&mut s, 1, FollowDirection::Following, &actions);
    fetch_and_store_profile(&mut s, profile(2, Some("bob")));
    fetch_and_store_profile(&mut s, profile(3, Some("carol")));

    match get_profile_links(&s, 1, false, FollowDirection::Following) {
        ReadThrough::Hit(v) => {
            let names: Vec<Option<String>> = v.iter().map(|p| p.username.clone()).collect();
            assert_eq!(names, vec![Some("bob".to_string())]);
        },
        ReadThrough::Fetch => panic!("unforced read must be served from the store"),
    }
    match get_profile_links(&s, 1, false, FollowDirection::FollowedBy) {
        ReadThrough::Hit(v) => {
            let fids: Vec<u64> = v.iter().map(|p| p.fid).collect();
            assert_eq!(fids, vec![3]);
        },
        ReadThrough::Fetch => panic!("unforced read must be served from the store"),
    }
    assert_eq!(
        get_profile_links(&s, 1, true, FollowDirection::Following),
        ReadThrough::Fetch
    );
}

#[test]
fn profile_links_empty_for_unlinked_user() {
    let mut s = Store::new();
    fetch_and_store_profile(&mut s, profile(5, None));
    match get_profile_links(&s, 5, false, FollowDirection::Following) {
        ReadThrough::Hit(v) => assert!(v.is_empty()),
        ReadThrough::Fetch => panic!("unforced read must be served from the store"),
    }
}

#[test]
fn notifications_read_back_by_fid() {
    let mut s = Store::new();
    s.notifications.push(Notification {
        notification_id: 1,
        fid: 5,
        notification_type: 2,
        notification_data: vec![1, 2],
        created: 100,
        viewed: false,
    });
    s.notifications.push(Notification {
        notification_id: 2,
        fid: 6,
        notification_type: 3,
        notification_data: vec![],
        created: 101,
        viewed: true,
    });
    let rows = get_user_notifications(&s, 5);
    assert_eq!(rows.len(), 1);
    assert_eq!(rows[0].notification_id, 1);
    assert_eq!(fetch_user_latest_notification_type(&s, 5), Ok(2));
    assert_eq!(
        fetch_user_latest_notification_type(&s, 7),
        Err(ServerError::DbError)
    );
}

#[test]
fn db_error_message() {
    assert_eq!(
        ServerError::DbError.message(),
        "There was a problem with the database"
    );
}
