use vstd::prelude::*;

use crate::error::ServerError;
use crate::store::Store;
use crate::user_models::{
    spec_empty_user, spec_profile_of, spec_user_of, Link, Notification, NotificationV, Profile,
    User,
};

verus! {

/// Which side of the follow graph a query asks for.
#[derive(Debug, Copy, Clone, PartialEq, Eq, Structural)]
pub enum FollowDirection {
    /// Users that `fid` follows: edges `(fid, target)`.
    Following,
    /// Users that follow `fid`: edges `(source, fid)`.
    FollowedBy,
}

/// A follow mutation decoded from one hub message.
#[derive(Debug, Copy, Clone, PartialEq, Eq, Structural)]
pub struct LinkInfo {
    pub source_fid: u64,
    pub target_fid: u64,
    /// Seconds since the hub's epoch.
    pub timestamp: u32,
}

/// One decoded link action: insert or delete a follow edge.
#[derive(Debug, Copy, Clone, PartialEq, Eq, Structural)]
pub enum LinkAction {
    AddFollow(LinkInfo),
    RemoveFollow(LinkInfo),
}

/// Offset of the hub's epoch from the unix epoch, in seconds.
pub const FARCASTER_EPOCH: u64 = 1609459200;

/// A hub timestamp as unix seconds.
pub open spec fn spec_fc_to_unix(ts: u32) -> u64 {
    (FARCASTER_EPOCH + ts) as u64
}

/// Convert a hub timestamp to unix seconds.
pub fn fc_to_unix(ts: u32) -> (r: u64)
    ensures
        r == spec_fc_to_unix(ts),
{
    FARCASTER_EPOCH + (ts as u64)
}

/// Outcome of a read-through lookup: either the cached rows, or a
/// directive to fetch from the hub and store the result.
#[derive(Debug, PartialEq, Eq)]
pub enum ReadThrough<T> {
    Hit(T),
    Fetch,
}

// ---------------------------------------------------------------------------
// Specification of one link sync.
//
// A sync takes the decoded actions of one hub response and applies them in
// a single transaction: placeholder users for every `AddFollow` endpoint
// (`on conflict do nothing`), then every added edge (`on conflict do
// nothing`), then every removed edge.  The folds below walk the action
// list left to right.
// ---------------------------------------------------------------------------

/// User table after the placeholder inserts for every `AddFollow`
/// endpoint; rows that already exist are never overwritten.
pub open spec fn spec_add_users(m: Map<u64, User>, actions: Seq<LinkAction>) -> Map<u64, User>
    decreases actions.len(),
{
    if actions.len() == 0 {
        m
    } else {
        let prev = spec_add_users(m, actions.drop_last());
        match actions.last() {
            LinkAction::AddFollow(info) => {
                let m1 = if prev.contains_key(info.source_fid) {
                    prev
                } else {
                    prev.insert(info.source_fid, spec_empty_user(info.source_fid))
                };
                if m1.contains_key(info.target_fid) {
                    m1
                } else {
                    m1.insert(info.target_fid, spec_empty_user(info.target_fid))
                }
            },
            LinkAction::RemoveFollow(_) => prev,
        }
    }
}

/// Link table after inserting every `AddFollow` edge; an edge already
/// present keeps its stored timestamp.
pub open spec fn spec_add_edges(m: Map<(u64, u64), u64>, actions: Seq<LinkAction>) -> Map<
    (u64, u64),
    u64,
>
    decreases actions.len(),
{
    if actions.len() == 0 {
        m
    } else {
        let prev = spec_add_edges(m, actions.drop_last());
        match actions.last() {
            LinkAction::AddFollow(info) => {
                if prev.contains_key((info.source_fid, info.target_fid)) {
                    prev
                } else {
                    prev.insert((info.source_fid, info.target_fid), spec_fc_to_unix(info.timestamp))
                }
            },
            LinkAction::RemoveFollow(_) => prev,
        }
    }
}

/// Link table after deleting every `RemoveFollow` edge.
pub open spec fn spec_remove_edges(m: Map<(u64, u64), u64>, actions: Seq<LinkAction>) -> Map<
    (u64, u64),
    u64,
>
    decreases actions.len(),
{
    if actions.len() == 0 {
        m
    } else {
        let prev = spec_remove_edges(m, actions.drop_last());
        match actions.last() {
            LinkAction::AddFollow(_) => prev,
            LinkAction::RemoveFollow(info) => prev.remove((info.source_fid, info.target_fid)),
        }
    }
}

/// Link table after one whole sync: all inserts, then all deletes.
pub open spec fn spec_apply_link_actions(m: Map<(u64, u64), u64>, actions: Seq<LinkAction>) -> Map<
    (u64, u64),
    u64,
> {
    spec_remove_edges(spec_add_edges(m, actions), actions)
}

/// The link-table key joining `fid` with another user, by direction.
pub open spec fn spec_link_key(direction: FollowDirection, fid: u64, other: u64) -> (u64, u64) {
    match direction {
        FollowDirection::Following => (fid, other),
        FollowDirection::FollowedBy => (other, fid),
    }
}

/// The join `users x links` in user-table order: the profiles of every
/// user connected to `fid` by a stored edge in the given direction.
pub open spec fn spec_profile_links(
    users: Seq<User>,
    links: Map<(u64, u64), u64>,
    fid: u64,
    direction: FollowDirection,
) -> Seq<Profile>
    decreases users.len(),
{
    if users.len() == 0 {
        Seq::empty()
    } else {
        let rest = spec_profile_links(users.drop_last(), links, fid, direction);
        if links.contains_key(spec_link_key(direction, fid, users.last().fid)) {
            rest + seq![spec_profile_of(users.last())]
        } else {
            rest
        }
    }
}

/// After the placeholder phase, every `AddFollow` endpoint has a user row.
pub proof fn lemma_add_users_covers(m: Map<u64, User>, actions: Seq<LinkAction>)
    ensures
        forall|j: int|
            0 <= j < actions.len() ==> ((#[trigger] actions[j]) matches LinkAction::AddFollow(info)
                ==> spec_add_users(m, actions).contains_key(info.source_fid) && spec_add_users(
                m,
                actions,
            ).contains_key(info.target_fid)),
    decreases actions.len(),
{
    if actions.len() > 0 {
        let prev = spec_add_users(m, actions.drop_last());
        let full = spec_add_users(m, actions);
        lemma_add_users_covers(m, actions.drop_last());
        assert(forall|k: u64| prev.contains_key(k) ==> #[trigger] full.contains_key(k));
        assert forall|j: int|
            0 <= j < actions.len() implies ((#[trigger] actions[j]) matches LinkAction::AddFollow(
            info,
        ) ==> full.contains_key(info.source_fid) && full.contains_key(info.target_fid)) by {
            if j < actions.len() - 1 {
                assert(actions.drop_last()[j] == actions[j]);
            }
        }
    }
}

/// The placeholder phase only grows the user table and never overwrites a
/// row: a populated profile cannot regress to empty.
pub proof fn lemma_add_users_preserves(m: Map<u64, User>, actions: Seq<LinkAction>, k: u64)
    requires
        m.contains_key(k),
    ensures
        spec_add_users(m, actions).contains_key(k),
        spec_add_users(m, actions)[k] == m[k],
    decreases actions.len(),
{
    if actions.len() > 0 {
        lemma_add_users_preserves(m, actions.drop_last(), k);
    }
}

// ---------------------------------------------------------------------------
// Repository operations.
// ---------------------------------------------------------------------------

/// Cache side of the read-through profile lookup: on a hit the stored row
/// is returned; a forced refresh or a miss directs the caller to fetch
/// from the hub and store via [`fetch_and_store_profile`].
pub fn get_user_profile(store: &Store, fid_q: u64, force_fetch: bool) -> (r: ReadThrough<Profile>)
    requires
        store.wf(),
    ensures
        force_fetch ==> r is Fetch,
        (!force_fetch && store.has_user(fid_q)) ==> (r matches ReadThrough::Hit(p) && p
            == spec_profile_of(store.users_map()[fid_q])),
        (!force_fetch && !store.has_user(fid_q)) ==> r is Fetch,
{
    if force_fetch {
        return ReadThrough::Fetch;
    }
    match store.get_user(fid_q) {
        Some(u) => ReadThrough::Hit(u.to_profile()),
        None => ReadThrough::Fetch,
    }
}

/// Store the profile fetched from the hub, replacing any existing row
/// (`on conflict (fid) do update`), and return the stored row read back.
pub fn fetch_and_store_profile(store: &mut Store, fetched: Profile) -> (r: Profile)
    requires
        old(store).wf(),
    ensures
        final(store).wf(),
        final(store).users_map() == old(store).users_map().insert(
            fetched.fid,
            spec_user_of(fetched),
        ),
        final(store).signers@ == old(store).signers@,
        final(store).links@ == old(store).links@,
        final(store).notifications@ == old(store).notifications@,
        r == fetched,
{
    store.upsert_user(fetched.to_user());
    proof {
        assert(spec_profile_of(spec_user_of(fetched)) == fetched);
    }
    fetched
}

/// Law: storing one fetched profile is idempotent — with the upstream
/// unchanged, writing the same row twice leaves the same user table as
/// writing it once.
pub proof fn lemma_fetch_and_store_profile_idempotent(m: Map<u64, User>, p: Profile)
    ensures
        m.insert(p.fid, spec_user_of(p)).insert(p.fid, spec_user_of(p)) == m.insert(
            p.fid,
            spec_user_of(p),
        ),
{
    assert(m.insert(p.fid, spec_user_of(p)).insert(p.fid, spec_user_of(p)) =~= m.insert(
        p.fid,
        spec_user_of(p),
    ));
}

/// Law: a sync converges per edge — if the decoded actions hold a
/// `RemoveFollow` for an edge, the link table ends without that edge,
/// whatever it held before and whatever `AddFollow` actions accompany it,
/// because every delete runs after every insert.
pub proof fn lemma_remove_follow_wins(
    m: Map<(u64, u64), u64>,
    actions: Seq<LinkAction>,
    e: (u64, u64),
)
    requires
        exists|i: int|
            #![trigger actions[i]]
            {
                &&& 0 <= i < actions.len()
                &&& actions[i] matches LinkAction::RemoveFollow(info) && info.source_fid == e.0
                    && info.target_fid == e.1
            },
    ensures
        !spec_apply_link_actions(m, actions).contains_key(e),
{
    lemma_remove_edges_removes(spec_add_edges(m, actions), actions, e);
}

/// In the delete phase, an edge named by any `RemoveFollow` ends absent:
/// no later step of the phase can re-insert it.
proof fn lemma_remove_edges_removes(l: Map<(u64, u64), u64>, actions: Seq<LinkAction>, e: (u64, u64))
    requires
        exists|i: int|
            #![trigger actions[i]]
            {
                &&& 0 <= i < actions.len()
                &&& actions[i] matches LinkAction::RemoveFollow(info) && info.source_fid == e.0
                    && info.target_fid == e.1
            },
    ensures
        !spec_remove_edges(l, actions).contains_key(e),
    decreases actions.len(),
{
    let i = choose|i: int|
        #![trigger actions[i]]
        {
            &&& 0 <= i < actions.len()
            &&& actions[i] matches LinkAction::RemoveFollow(info) && info.source_fid == e.0
                && info.target_fid == e.1
        };
    if i == actions.len() - 1 {
        match actions.last() {
            LinkAction::RemoveFollow(info) => {
                assert((info.source_fid, info.target_fid) == e);
            },
            LinkAction::AddFollow(_) => {
                assert(false);
            },
        }
    } else {
        assert(actions.drop_last()[i] == actions[i]);
        lemma_remove_edges_removes(l, actions.drop_last(), e);
    }
}

/// Cache side of the read-through follow query: unless a refresh is
/// forced, the stored join is returned as it stands (possibly empty).
pub fn get_profile_links(
    store: &Store,
    fid_q: u64,
    force_fetch: bool,
    direction: FollowDirection,
) -> (r: ReadThrough<Vec<Profile>>)
    requires
        store.wf(),
    ensures
        force_fetch ==> r is Fetch,
        !force_fetch ==> (r matches ReadThrough::Hit(v) && v@ == spec_profile_links(
            store.users@,
            store.links_map(),
            fid_q,
            direction,
        )),
{
    if force_fetch {
        return ReadThrough::Fetch;
    }
    ReadThrough::Hit(query_profile_links(store, fid_q, direction))
}

/// The stored join `users x links` for `fid`, in user-table order.
fn query_profile_links(store: &Store, fid: u64, direction: FollowDirection) -> (r: Vec<Profile>)
    requires
        store.wf(),
    ensures
        r@ == spec_profile_links(store.users@, store.links_map(), fid, direction),
{
    let mut out: Vec<Profile> = Vec::new();
    let n = store.users.len();
    let mut i: usize = 0;
    while i < n
        invariant
            i <= n,
            n == store.users@.len(),
            store.wf(),
            out@ == spec_profile_links(
                store.users@.take(i as int),
                store.links_map(),
                fid,
                direction,
            ),
        decreases n - i,
    {
        let u_fid = store.users[i].fid;
        let hit = match direction {
            FollowDirection::Following => store.has_link(fid, u_fid),
            FollowDirection::FollowedBy => store.has_link(u_fid, fid),
        };
        proof {
            assert(store.users@.take(i + 1).drop_last() =~= store.users@.take(i as int));
            assert(store.users@.take(i + 1).last() == store.users@[i as int]);
        }
        if hit {
            let p = store.users[i].to_profile();
            out.push(p);
            proof {
                assert(out@ =~= spec_profile_links(
                    store.users@.take(i as int),
                    store.links_map(),
                    fid,
                    direction,
                ) + seq![spec_profile_of(store.users@[i as int])]);
            }
        }
        i = i + 1;
    }
    proof {
        assert(store.users@.take(n as int) =~= store.users@);
    }
    out
}

/// Apply one fetched link sync in a single transaction and return the
/// refreshed join: placeholder users for every `AddFollow` endpoint, then
/// the added edges (`on conflict do nothing`), then the deletions, then
/// the same query as [`get_profile_links`].
pub fn fetch_and_store_links(
    store: &mut Store,
    fid_q: u64,
    direction: FollowDirection,
    actions: &Vec<LinkAction>,
) -> (r: Vec<Profile>)
    requires
        old(store).wf(),
    ensures
        final(store).wf(),
        final(store).users_map() == spec_add_users(old(store).users_map(), actions@),
        final(store).links_map() == spec_apply_link_actions(old(store).links_map(), actions@),
        final(store).signers@ == old(store).signers@,
        final(store).notifications@ == old(store).notifications@,
        r@ == spec_profile_links(final(store).users@, final(store).links_map(), fid_q, direction),
{
    let ghost pre = *store;
    let n = actions.len();

    // Placeholder users for every AddFollow endpoint.
    let mut i: usize = 0;
    while i < n
        invariant
            i <= n,
            n == actions@.len(),
            store.wf(),
            store.users_map() == spec_add_users(pre.users_map(), actions@.take(i as int)),
            store.signers@ == pre.signers@,
            store.links@ == pre.links@,
            store.notifications@ == pre.notifications@,
        decreases n - i,
    {
        proof {
            assert(actions@.take(i + 1).drop_last() =~= actions@.take(i as int));
            assert(actions@.take(i + 1).last() == actions@[i as int]);
        }
        match actions[i] {
            LinkAction::AddFollow(info) => {
                store.ensure_user(info.source_fid);
                store.ensure_user(info.target_fid);
            },
            LinkAction::RemoveFollow(_) => {},
        }
        i = i + 1;
    }
    proof {
        assert(actions@.take(n as int) =~= actions@);
        lemma_add_users_covers(pre.users_map(), actions@);
    }

    // Added edges, keeping any stored timestamp.
    let ghost mid = *store;
    let mut i: usize = 0;
    while i < n
        invariant
            i <= n,
            n == actions@.len(),
            store.wf(),
            store.users@ == mid.users@,
            store.users_map() == mid.users_map(),
            store.links_map() == spec_add_edges(pre.links_map(), actions@.take(i as int)),
            store.signers@ == pre.signers@,
            store.notifications@ == pre.notifications@,
            forall|j: int|
                0 <= j < actions@.len() ==> ((#[trigger] actions@[j]) matches
                    LinkAction::AddFollow(info) ==> store.users_map().contains_key(info.source_fid)
                    && store.users_map().contains_key(info.target_fid)),
        decreases n - i,
    {
        proof {
            assert(actions@.take(i + 1).drop_last() =~= actions@.take(i as int));
            assert(actions@.take(i + 1).last() == actions@[i as int]);
        }
        match actions[i] {
            LinkAction::AddFollow(info) => {
                let l = Link {
                    fid: info.source_fid,
                    target: info.target_fid,
                    timestamp: fc_to_unix(info.timestamp),
                };
                store.insert_link(l);
            },
            LinkAction::RemoveFollow(_) => {},
        }
        i = i + 1;
    }
    proof {
        assert(actions@.take(n as int) =~= actions@);
    }

    // Deletions, after every insert.
    let ghost mid2 = *store;
    let mut i: usize = 0;
    while i < n
        invariant
            i <= n,
            n == actions@.len(),
            store.wf(),
            store.users@ == mid.users@,
            store.users_map() == mid.users_map(),
            store.links_map() == spec_remove_edges(mid2.links_map(), actions@.take(i as int)),
            store.signers@ == pre.signers@,
            store.notifications@ == pre.notifications@,
        decreases n - i,
    {
        proof {
            assert(actions@.take(i + 1).drop_last() =~= actions@.take(i as int));
            assert(actions@.take(i + 1).last() == actions@[i as int]);
        }
        match actions[i] {
            LinkAction::RemoveFollow(info) => {
                store.delete_link(info.source_fid, info.target_fid);
            },
            LinkAction::AddFollow(_) => {},
        }
        i = i + 1;
    }
    proof {
        assert(actions@.take(n as int) =~= actions@);
    }

    query_profile_links(store, fid_q, direction)
}

} // verus!

verus! {

/// The notification rows of one user, in table order.
pub open spec fn spec_user_notifications(rows: Seq<Notification>, fid: u64) -> Seq<NotificationV>
    decreases rows.len(),
{
    if rows.len() == 0 {
        Seq::empty()
    } else {
        let rest = spec_user_notifications(rows.drop_last(), fid);
        if rows.last().fid == fid {
            rest + seq![rows.last()@]
        } else {
            rest
        }
    }
}

/// Read the stored notifications of one user; reserved, no live path
/// writes the table.
pub fn get_user_notifications(store: &Store, fid_q: u64) -> (r: Vec<Notification>)
    ensures
        r@.len() == spec_user_notifications(store.notifications@, fid_q).len(),
        forall|i: int|
            0 <= i < r@.len() ==> r@[i]@ == spec_user_notifications(
                store.notifications@,
                fid_q,
            )[i],
{
    let mut out: Vec<Notification> = Vec::new();
    let n = store.notifications.len();
    let mut i: usize = 0;
    while i < n
        invariant
            i <= n,
            n == store.notifications@.len(),
            out@.len() == spec_user_notifications(store.notifications@.take(i as int), fid_q).len(),
            forall|j: int|
                0 <= j < out@.len() ==> out@[j]@ == spec_user_notifications(
                    store.notifications@.take(i as int),
                    fid_q,
                )[j],
        decreases n - i,
    {
        proof {
            assert(store.notifications@.take(i + 1).drop_last() =~= store.notifications@.take(
                i as int,
            ));
            assert(store.notifications@.take(i + 1).last() == store.notifications@[i as int]);
        }
        if store.notifications[i].fid == fid_q {
            out.push(store.notifications[i].clone_row());
        }
        i = i + 1;
    }
    proof {
        assert(store.notifications@.take(n as int) =~= store.notifications@);
    }
    out
}

/// The type of the first stored notification of one user, if any.
pub open spec fn spec_first_notification_type(rows: Seq<Notification>, fid: u64) -> Option<i32>
    decreases rows.len(),
{
    if rows.len() == 0 {
        None
    } else if rows.first().fid == fid {
        Some(rows.first().notification_type)
    } else {
        spec_first_notification_type(rows.drop_first(), fid)
    }
}

/// Read the type of one user's first stored notification; a user without
/// rows reads as a storage error, as a single-row query does.
pub fn fetch_user_latest_notification_type(store: &Store, fid_q: u64) -> (r: Result<
    i32,
    ServerError,
>)
    ensures
        (spec_first_notification_type(store.notifications@, fid_q) matches Some(t) ==> r == Ok::<
            i32,
            ServerError,
        >(t)),
        spec_first_notification_type(store.notifications@, fid_q) is None ==> r == Err::<
            i32,
            ServerError,
        >(ServerError::DbError),
{
    let n = store.notifications.len();
    let mut i: usize = 0;
    proof {
        assert(store.notifications@.skip(0) =~= store.notifications@);
    }
    while i < n
        invariant
            i <= n,
            n == store.notifications@.len(),
            spec_first_notification_type(store.notifications@, fid_q)
                == spec_first_notification_type(store.notifications@.skip(i as int), fid_q),
            forall|j: int| 0 <= j < i ==> store.notifications@[j].fid != fid_q,
        decreases n - i,
    {
        proof {
            assert(store.notifications@.skip(i as int).drop_first() =~= store.notifications@.skip(
                i + 1,
            ));
            assert(store.notifications@.skip(i as int).first() == store.notifications@[i as int]);
        }
        if store.notifications[i].fid == fid_q {
            return Ok(store.notifications[i].notification_type);
        }
        i = i + 1;
    }
    proof {
        assert(store.notifications@.skip(n as int) =~= Seq::<Notification>::empty());
    }
    Err(ServerError::DbError)
}

} // verus!
