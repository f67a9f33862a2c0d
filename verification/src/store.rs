use vstd::prelude::*;

use crate::user_models::{
    spec_empty_user, Link, Notification, Signer, SignerV, User,
};

verus! {

// ---------------------------------------------------------------------------
// Mathematical images of the three keyed tables.
//
// Each table is held as a row vector; its meaning is the map from primary
// key to row obtained by folding the rows left to right, so a later row
// with the same key would win.  Well-formedness makes keys unique, and the
// fold then agrees with the rows pointwise.
// ---------------------------------------------------------------------------

/// Meaning of the user table: `fid -> row`.
pub open spec fn users_map_of(s: Seq<User>) -> Map<u64, User>
    decreases s.len(),
{
    if s.len() == 0 {
        Map::empty()
    } else {
        users_map_of(s.drop_last()).insert(s.last().fid, s.last())
    }
}

/// At most one row per `fid`.
pub open spec fn users_unique(s: Seq<User>) -> bool {
    forall|i: int, j: int| 0 <= i < j < s.len() ==> s[i].fid != s[j].fid
}

/// Meaning of the signer table: `pk -> row`.
pub open spec fn signers_map_of(s: Seq<Signer>) -> Map<Seq<u8>, SignerV>
    decreases s.len(),
{
    if s.len() == 0 {
        Map::empty()
    } else {
        signers_map_of(s.drop_last()).insert(s.last().pk@, s.last()@)
    }
}

/// At most one row per `pk`.
pub open spec fn signers_unique(s: Seq<Signer>) -> bool {
    forall|i: int, j: int| 0 <= i < j < s.len() ==> s[i].pk@ != s[j].pk@
}

/// Meaning of the link table: `(fid, target) -> timestamp`.
pub open spec fn links_map_of(s: Seq<Link>) -> Map<(u64, u64), u64>
    decreases s.len(),
{
    if s.len() == 0 {
        Map::empty()
    } else {
        links_map_of(s.drop_last()).insert((s.last().fid, s.last().target), s.last().timestamp)
    }
}

/// At most one row per `(fid, target)`.
pub open spec fn links_unique(s: Seq<Link>) -> bool {
    forall|i: int, j: int|
        0 <= i < j < s.len() ==> (s[i].fid, s[i].target) != (s[j].fid, s[j].target)
}

// ---------------------------------------------------------------------------
// Table lemmas: how the key-to-row maps follow the row vectors.
// ---------------------------------------------------------------------------

/// A row's key is in the map.
pub proof fn lemma_users_map_contains_at(s: Seq<User>, i: int)
    requires
        0 <= i < s.len(),
    ensures
        users_map_of(s).contains_key(s[i].fid),
    decreases s.len(),
{
    if i < s.len() - 1 {
        lemma_users_map_contains_at(s.drop_last(), i);
    }
}

/// With unique keys, the map reads back exactly the row.
pub proof fn lemma_users_map_index(s: Seq<User>, i: int)
    requires
        users_unique(s),
        0 <= i < s.len(),
    ensures
        users_map_of(s).contains_key(s[i].fid),
        users_map_of(s)[s[i].fid] == s[i],
    decreases s.len(),
{
    lemma_users_map_contains_at(s, i);
    if i < s.len() - 1 {
        lemma_users_map_index(s.drop_last(), i);
    }
}

/// A key on no row is not in the map.
pub proof fn lemma_users_map_absent(s: Seq<User>, f: u64)
    requires
        forall|i: int| 0 <= i < s.len() ==> s[i].fid != f,
    ensures
        !users_map_of(s).contains_key(f),
    decreases s.len(),
{
    if s.len() > 0 {
        lemma_users_map_absent(s.drop_last(), f);
    }
}

/// Appending a row inserts its key.
pub proof fn lemma_users_map_push(s: Seq<User>, u: User)
    ensures
        users_map_of(s.push(u)) == users_map_of(s).insert(u.fid, u),
{
    assert(s.push(u).drop_last() =~= s);
}

/// Replacing a row in place, key kept, overwrites its map entry.
pub proof fn lemma_users_map_update(s: Seq<User>, i: int, u: User)
    requires
        users_unique(s),
        0 <= i < s.len(),
        s[i].fid == u.fid,
    ensures
        users_map_of(s.update(i, u)) == users_map_of(s).insert(u.fid, u),
    decreases s.len(),
{
    let t = s.update(i, u);
    if i == s.len() - 1 {
        assert(t.drop_last() =~= s.drop_last());
        assert(users_map_of(t) =~= users_map_of(s).insert(u.fid, u));
    } else {
        assert(t.drop_last() =~= s.drop_last().update(i, u));
        lemma_users_map_update(s.drop_last(), i, u);
        assert(s[s.len() - 1].fid != u.fid);
        assert(users_map_of(t) =~= users_map_of(s).insert(u.fid, u));
    }
}

/// A row's key is in the map.
pub proof fn lemma_signers_map_contains_at(s: Seq<Signer>, i: int)
    requires
        0 <= i < s.len(),
    ensures
        signers_map_of(s).contains_key(s[i].pk@),
    decreases s.len(),
{
    if i < s.len() - 1 {
        lemma_signers_map_contains_at(s.drop_last(), i);
    }
}

/// With unique keys, the map reads back exactly the row.
pub proof fn lemma_signers_map_index(s: Seq<Signer>, i: int)
    requires
        signers_unique(s),
        0 <= i < s.len(),
    ensures
        signers_map_of(s).contains_key(s[i].pk@),
        signers_map_of(s)[s[i].pk@] == s[i]@,
    decreases s.len(),
{
    lemma_signers_map_contains_at(s, i);
    if i < s.len() - 1 {
        lemma_signers_map_index(s.drop_last(), i);
    }
}

/// A key on no row is not in the map.
pub proof fn lemma_signers_map_absent(s: Seq<Signer>, pk: Seq<u8>)
    requires
        forall|i: int| 0 <= i < s.len() ==> s[i].pk@ != pk,
    ensures
        !signers_map_of(s).contains_key(pk),
    decreases s.len(),
{
    if s.len() > 0 {
        lemma_signers_map_absent(s.drop_last(), pk);
    }
}

/// Appending a row inserts its key.
pub proof fn lemma_signers_map_push(s: Seq<Signer>, x: Signer)
    ensures
        signers_map_of(s.push(x)) == signers_map_of(s).insert(x.pk@, x@),
{
    assert(s.push(x).drop_last() =~= s);
}

/// Replacing a row in place, key kept, overwrites its map entry.
pub proof fn lemma_signers_map_update(s: Seq<Signer>, i: int, x: Signer)
    requires
        signers_unique(s),
        0 <= i < s.len(),
        s[i].pk@ == x.pk@,
    ensures
        signers_map_of(s.update(i, x)) == signers_map_of(s).insert(x.pk@, x@),
    decreases s.len(),
{
    let t = s.update(i, x);
    if i == s.len() - 1 {
        assert(t.drop_last() =~= s.drop_last());
        assert(signers_map_of(t) =~= signers_map_of(s).insert(x.pk@, x@));
    } else {
        assert(t.drop_last() =~= s.drop_last().update(i, x));
        lemma_signers_map_update(s.drop_last(), i, x);
        assert(s[s.len() - 1].pk@ != x.pk@);
        assert(signers_map_of(t) =~= signers_map_of(s).insert(x.pk@, x@));
    }
}

/// A row's key is in the map.
pub proof fn lemma_links_map_contains_at(s: Seq<Link>, i: int)
    requires
        0 <= i < s.len(),
    ensures
        links_map_of(s).contains_key((s[i].fid, s[i].target)),
    decreases s.len(),
{
    if i < s.len() - 1 {
        lemma_links_map_contains_at(s.drop_last(), i);
    }
}

/// With unique keys, the map reads back exactly the row's timestamp.
pub proof fn lemma_links_map_index(s: Seq<Link>, i: int)
    requires
        links_unique(s),
        0 <= i < s.len(),
    ensures
        links_map_of(s).contains_key((s[i].fid, s[i].target)),
        links_map_of(s)[(s[i].fid, s[i].target)] == s[i].timestamp,
    decreases s.len(),
{
    lemma_links_map_contains_at(s, i);
    if i < s.len() - 1 {
        lemma_links_map_index(s.drop_last(), i);
    }
}

/// A key on no row is not in the map.
pub proof fn lemma_links_map_absent(s: Seq<Link>, e: (u64, u64))
    requires
        forall|i: int| 0 <= i < s.len() ==> (s[i].fid, s[i].target) != e,
    ensures
        !links_map_of(s).contains_key(e),
    decreases s.len(),
{
    if s.len() > 0 {
        lemma_links_map_absent(s.drop_last(), e);
    }
}

/// Appending a row inserts its key.
pub proof fn lemma_links_map_push(s: Seq<Link>, l: Link)
    ensures
        links_map_of(s.push(l)) == links_map_of(s).insert((l.fid, l.target), l.timestamp),
{
    assert(s.push(l).drop_last() =~= s);
}

/// Removing the one row with a key removes its map entry.
pub proof fn lemma_links_map_remove(s: Seq<Link>, i: int)
    requires
        links_unique(s),
        0 <= i < s.len(),
    ensures
        links_map_of(s.remove(i)) == links_map_of(s).remove((s[i].fid, s[i].target)),
    decreases s.len(),
{
    let e = (s[i].fid, s[i].target);
    let t = s.remove(i);
    if i == s.len() - 1 {
        assert(t =~= s.drop_last());
        assert(forall|j: int| 0 <= j < s.drop_last().len() ==> (s.drop_last()[j].fid, s.drop_last()[j].target) != e);
        lemma_links_map_absent(s.drop_last(), e);
        assert(links_map_of(t) =~= links_map_of(s).remove(e));
    } else {
        assert(t.drop_last() =~= s.drop_last().remove(i));
        lemma_links_map_remove(s.drop_last(), i);
        assert((s[s.len() - 1].fid, s[s.len() - 1].target) != e);
        assert(links_map_of(t) =~= links_map_of(s).remove(e));
    }
}

/// A key in the map is on some row.
pub proof fn lemma_links_map_exists(s: Seq<Link>, e: (u64, u64))
    requires
        links_map_of(s).contains_key(e),
    ensures
        exists|i: int| 0 <= i < s.len() && (#[trigger] s[i]).fid == e.0 && s[i].target == e.1,
    decreases s.len(),
{
    if s.len() > 0 {
        if (s.last().fid, s.last().target) == e {
            assert(s[s.len() - 1].fid == e.0 && s[s.len() - 1].target == e.1);
        } else {
            lemma_links_map_exists(s.drop_last(), e);
            let i = choose|i: int|
                0 <= i < s.drop_last().len() && (#[trigger] s.drop_last()[i]).fid == e.0
                    && s.drop_last()[i].target == e.1;
            assert(s[i].fid == e.0 && s[i].target == e.1);
        }
    }
}

/// A key in the map is on some row.
pub proof fn lemma_signers_map_exists(s: Seq<Signer>, pk: Seq<u8>)
    requires
        signers_map_of(s).contains_key(pk),
    ensures
        exists|i: int| 0 <= i < s.len() && (#[trigger] s[i]).pk@ == pk,
    decreases s.len(),
{
    if s.len() > 0 {
        if s.last().pk@ == pk {
            assert(s[s.len() - 1].pk@ == pk);
        } else {
            lemma_signers_map_exists(s.drop_last(), pk);
            let i = choose|i: int| 0 <= i < s.drop_last().len() && (#[trigger] s.drop_last()[i]).pk@ == pk;
            assert(s[i].pk@ == pk);
        }
    }
}

// ---------------------------------------------------------------------------
// The store itself.
// ---------------------------------------------------------------------------

/// Relational model of the persisted state: the user, signer, link and
/// notification tables, with the integrity constraints the schema enforces.
pub struct Store {
    pub users: Vec<User>,
    pub signers: Vec<Signer>,
    pub links: Vec<Link>,
    pub notifications: Vec<Notification>,
}

impl Store {
    /// `fid -> row` of the user table.
    pub open spec fn users_map(self) -> Map<u64, User> {
        users_map_of(self.users@)
    }

    /// `pk -> row` of the signer table.
    pub open spec fn signers_map(self) -> Map<Seq<u8>, SignerV> {
        signers_map_of(self.signers@)
    }

    /// `(fid, target) -> unix timestamp` of the link table.
    pub open spec fn links_map(self) -> Map<(u64, u64), u64> {
        links_map_of(self.links@)
    }

    /// A row for `fid` exists.
    pub open spec fn has_user(self, fid: u64) -> bool {
        self.users_map().contains_key(fid)
    }

    /// Integrity of the store:
    /// - every table keeps at most one row per primary key;
    /// - every link's endpoints resolve in the user table;
    /// - every signer's fid resolves in the user table.
    pub open spec fn wf(self) -> bool {
        &&& users_unique(self.users@)
        &&& signers_unique(self.signers@)
        &&& links_unique(self.links@)
        &&& forall|i: int|
            0 <= i < self.signers@.len() ==> self.has_user(#[trigger] self.signers@[i].fid)
        &&& forall|i: int|
            0 <= i < self.links@.len() ==> self.has_user(#[trigger] self.links@[i].fid)
                && self.has_user(self.links@[i].target)
    }

    /// Fresh, empty store.
    pub fn new() -> (r: Store)
        ensures
            r.wf(),
            r.users_map() == Map::<u64, User>::empty(),
            r.signers_map() == Map::<Seq<u8>, SignerV>::empty(),
            r.links_map() == Map::<(u64, u64), u64>::empty(),
            r.notifications@ == Seq::<Notification>::empty(),
    {
        Store { users: Vec::new(), signers: Vec::new(), links: Vec::new(), notifications: Vec::new() }
    }

    fn find_user(&self, fid: u64) -> (r: Option<usize>)
        ensures
            match r {
                Some(i) => i < self.users@.len() && self.users@[i as int].fid == fid,
                None => forall|i: int| 0 <= i < self.users@.len() ==> self.users@[i].fid != fid,
            },
    {
        let n = self.users.len();
        let mut i: usize = 0;
        while i < n
            invariant
                i <= n,
                n == self.users@.len(),
                forall|j: int| 0 <= j < i ==> self.users@[j].fid != fid,
            decreases n - i,
        {
            if self.users[i].fid == fid {
                return Some(i);
            }
            i = i + 1;
        }
        None
    }

    /// Read the row for `fid`, if any.
    pub fn get_user(&self, fid: u64) -> (r: Option<User>)
        requires
            self.wf(),
        ensures
            r is Some <==> self.has_user(fid),
            (r matches Some(u) ==> u == self.users_map()[fid]),
    {
        match self.find_user(fid) {
            Some(i) => {
                proof {
                    lemma_users_map_index(self.users@, i as int);
                }
                Some(self.users[i].clone_row())
            },
            None => {
                proof {
                    lemma_users_map_absent(self.users@, fid);
                }
                None
            },
        }
    }

    /// Write `u`, replacing any existing row with the same `fid`
    /// (`on conflict (fid) do update`).
    pub fn upsert_user(&mut self, u: User)
        requires
            old(self).wf(),
        ensures
            final(self).wf(),
            final(self).users_map() == old(self).users_map().insert(u.fid, u),
            final(self).signers@ == old(self).signers@,
            final(self).links@ == old(self).links@,
            final(self).notifications@ == old(self).notifications@,
    {
        let ghost old_users = self.users@;
        match self.find_user(u.fid) {
            Some(i) => {
                self.users.set(i, u);
                proof {
                    lemma_users_map_update(old_users, i as int, self.users@[i as int]);
                    assert(forall|j: int|
                        0 <= j < self.users@.len() ==> self.users@[j].fid == old_users[j].fid);
                    lemma_user_table_grows(old_users, self.users@, *old(self), *self);
                }
            },
            None => {
                self.users.push(u);
                proof {
                    lemma_users_map_push(old_users, self.users@.last());
                    lemma_user_table_grows(old_users, self.users@, *old(self), *self);
                }
            },
        }
    }

    /// Insert the placeholder row for `fid` if absent
    /// (`on conflict do nothing`); existing rows are never overwritten, so a
    /// populated profile never regresses to empty.
    pub fn ensure_user(&mut self, fid: u64)
        requires
            old(self).wf(),
        ensures
            final(self).wf(),
            final(self).users_map() == (if old(self).has_user(fid) {
                old(self).users_map()
            } else {
                old(self).users_map().insert(fid, spec_empty_user(fid))
            }),
            final(self).has_user(fid),
            final(self).signers@ == old(self).signers@,
            final(self).links@ == old(self).links@,
            final(self).notifications@ == old(self).notifications@,
    {
        let ghost old_users = self.users@;
        match self.find_user(fid) {
            Some(i) => {
                proof {
                    lemma_users_map_contains_at(self.users@, i as int);
                }
            },
            None => {
                proof {
                    lemma_users_map_absent(self.users@, fid);
                }
                self.users.push(User::empty(fid));
                proof {
                    lemma_users_map_push(old_users, self.users@.last());
                    lemma_user_table_grows(old_users, self.users@, *old(self), *self);
                }
            },
        }
    }
}

/// Byte-for-byte comparison of two keys.
pub fn bytes_eq(a: &Vec<u8>, b: &Vec<u8>) -> (r: bool)
    ensures
        r == (a@ == b@),
{
    if a.len() != b.len() {
        return false;
    }
    let n = a.len();
    let mut i: usize = 0;
    while i < n
        invariant
            i <= n,
            n == a@.len(),
            n == b@.len(),
            forall|j: int| 0 <= j < i ==> a@[j] == b@[j],
        decreases n - i,
    {
        if a[i] != b[i] {
            return false;
        }
        i = i + 1;
    }
    proof {
        assert(a@ =~= b@);
    }
    true
}

impl Store {
    fn find_signer(&self, pk_q: &Vec<u8>) -> (r: Option<usize>)
        ensures
            match r {
                Some(i) => i < self.signers@.len() && self.signers@[i as int].pk@ == pk_q@,
                None => forall|i: int| 0 <= i < self.signers@.len() ==> self.signers@[i].pk@ != pk_q@,
            },
    {
        let n = self.signers.len();
        let mut i: usize = 0;
        while i < n
            invariant
                i <= n,
                n == self.signers@.len(),
                forall|j: int| 0 <= j < i ==> self.signers@[j].pk@ != pk_q@,
            decreases n - i,
        {
            if bytes_eq(&self.signers[i].pk, pk_q) {
                return Some(i);
            }
            i = i + 1;
        }
        None
    }

    /// Read the signer stored under `pk_q`, if any.
    pub fn get_signer(&self, pk_q: &Vec<u8>) -> (r: Option<Signer>)
        requires
            self.wf(),
        ensures
            r is Some <==> self.signers_map().contains_key(pk_q@),
            (r matches Some(s) ==> s@ == self.signers_map()[pk_q@]),
    {
        match self.find_signer(pk_q) {
            Some(i) => {
                proof {
                    lemma_signers_map_index(self.signers@, i as int);
                }
                Some(self.signers[i].clone_signer())
            },
            None => {
                proof {
                    lemma_signers_map_absent(self.signers@, pk_q@);
                }
                None
            },
        }
    }

    /// Store `signer` unconditionally, in one transaction: first the
    /// placeholder user row for its fid (`on conflict do nothing`, keeping
    /// the foreign key), then the signer row, replacing any row under the
    /// same `pk`.  Returns the stored row.
    pub fn insert_signer(&mut self, signer: Signer) -> (r: Signer)
        requires
            old(self).wf(),
        ensures
            final(self).wf(),
            final(self).signers_map() == old(self).signers_map().insert(signer.pk@, signer@),
            final(self).users_map() == (if old(self).has_user(signer.fid) {
                old(self).users_map()
            } else {
                old(self).users_map().insert(signer.fid, spec_empty_user(signer.fid))
            }),
            final(self).links@ == old(self).links@,
            final(self).notifications@ == old(self).notifications@,
            r@ == signer@,
    {
        self.ensure_user(signer.fid);
        let ret = signer.clone_signer();
        let ghost mid = *self;
        match self.find_signer(&signer.pk) {
            Some(i) => {
                self.signers.set(i, signer);
                proof {
                    lemma_signers_map_update(mid.signers@, i as int, self.signers@[i as int]);
                    lemma_signer_table_wf(mid, *self);
                }
            },
            None => {
                self.signers.push(signer);
                proof {
                    lemma_signers_map_push(mid.signers@, self.signers@.last());
                    lemma_signer_table_wf(mid, *self);
                }
            },
        }
        ret
    }

    fn find_link(&self, fid: u64, target: u64) -> (r: Option<usize>)
        ensures
            match r {
                Some(i) => i < self.links@.len() && self.links@[i as int].fid == fid
                    && self.links@[i as int].target == target,
                None => forall|i: int|
                    0 <= i < self.links@.len() ==> (self.links@[i].fid, self.links@[i].target)
                        != (fid, target),
            },
    {
        let n = self.links.len();
        let mut i: usize = 0;
        while i < n
            invariant
                i <= n,
                n == self.links@.len(),
                forall|j: int| 0 <= j < i ==> (self.links@[j].fid, self.links@[j].target) != (fid, target),
            decreases n - i,
        {
            if self.links[i].fid == fid && self.links[i].target == target {
                return Some(i);
            }
            i = i + 1;
        }
        None
    }

    /// Whether the edge `(fid, target)` is stored.
    pub fn has_link(&self, fid: u64, target: u64) -> (r: bool)
        ensures
            r == self.links_map().contains_key((fid, target)),
    {
        match self.find_link(fid, target) {
            Some(i) => {
                proof {
                    lemma_links_map_contains_at(self.links@, i as int);
                }
                true
            },
            None => {
                proof {
                    lemma_links_map_absent(self.links@, (fid, target));
                }
                false
            },
        }
    }

    /// Insert the edge if absent (`on conflict do nothing`); both endpoints
    /// must already exist in the user table.
    pub fn insert_link(&mut self, l: Link)
        requires
            old(self).wf(),
            old(self).has_user(l.fid),
            old(self).has_user(l.target),
        ensures
            final(self).wf(),
            final(self).links_map() == (if old(self).links_map().contains_key((l.fid, l.target)) {
                old(self).links_map()
            } else {
                old(self).links_map().insert((l.fid, l.target), l.timestamp)
            }),
            final(self).users@ == old(self).users@,
            final(self).signers@ == old(self).signers@,
            final(self).notifications@ == old(self).notifications@,
    {
        let ghost pre = *self;
        match self.find_link(l.fid, l.target) {
            Some(i) => {
                proof {
                    lemma_links_map_contains_at(self.links@, i as int);
                }
            },
            None => {
                proof {
                    lemma_links_map_absent(self.links@, (l.fid, l.target));
                }
                self.links.push(l);
                proof {
                    lemma_links_map_push(pre.links@, self.links@.last());
                }
            },
        }
    }

    /// Delete the edge `(fid, target)` if present.
    pub fn delete_link(&mut self, fid: u64, target: u64)
        requires
            old(self).wf(),
        ensures
            final(self).wf(),
            final(self).links_map() == old(self).links_map().remove((fid, target)),
            final(self).users@ == old(self).users@,
            final(self).signers@ == old(self).signers@,
            final(self).notifications@ == old(self).notifications@,
    {
        let ghost pre = *self;
        match self.find_link(fid, target) {
            Some(i) => {
                self.links.remove(i);
                proof {
                    lemma_links_map_remove(pre.links@, i as int);
                    assert(forall|j: int|
                        0 <= j < self.links@.len() ==> #[trigger] self.links@[j] == (if j
                            < i as int {
                            pre.links@[j]
                        } else {
                            pre.links@[j + 1]
                        }));
                }
            },
            None => {
                proof {
                    lemma_links_map_absent(self.links@, (fid, target));
                    assert(self.links_map() =~= self.links_map().remove((fid, target)));
                }
            },
        }
    }
}

/// Law: both endpoints of every stored follow edge exist in the user
/// table.
pub proof fn lemma_link_endpoints_exist(s: Store, e: (u64, u64))
    requires
        s.wf(),
        s.links_map().contains_key(e),
    ensures
        s.has_user(e.0),
        s.has_user(e.1),
{
    lemma_links_map_exists(s.links@, e);
}

/// Law: every stored signer's fid exists in the user table.
pub proof fn lemma_signer_fid_exists(s: Store, pk: Seq<u8>)
    requires
        s.wf(),
        s.signers_map().contains_key(pk),
    ensures
        s.has_user(s.signers_map()[pk].fid),
{
    lemma_signers_map_exists(s.signers@, pk);
    let i = choose|i: int| 0 <= i < s.signers@.len() && (#[trigger] s.signers@[i]).pk@ == pk;
    lemma_signers_map_index(s.signers@, i);
}

/// Law: the user table holds at most one row per fid; two rows that agree
/// on the key are the same row.
pub proof fn lemma_users_at_most_one_row(s: Store, i: int, j: int)
    requires
        s.wf(),
        0 <= i < s.users@.len(),
        0 <= j < s.users@.len(),
        s.users@[i].fid == s.users@[j].fid,
    ensures
        i == j,
{
}

/// Helper for re-establishing integrity after the signer table gained or
/// replaced a row whose fid is already a user: users and links are
/// untouched, and every signer row's fid still resolves.
proof fn lemma_signer_table_wf(pre: Store, post: Store)
    requires
        pre.wf(),
        post.users@ == pre.users@,
        post.links@ == pre.links@,
        signers_unique(post.signers@),
        forall|i: int|
            0 <= i < post.signers@.len() ==> pre.has_user(#[trigger] post.signers@[i].fid),
    ensures
        post.wf(),
{
}

/// Helper for re-establishing integrity after the user table gained or
/// replaced a row: key uniqueness elsewhere is untouched and `has_user`
/// only grows, so every foreign key still resolves.
proof fn lemma_user_table_grows(old_users: Seq<User>, new_users: Seq<User>, pre: Store, post: Store)
    requires
        pre.wf(),
        pre.users@ == old_users,
        post.users@ == new_users,
        post.signers@ == pre.signers@,
        post.links@ == pre.links@,
        users_unique(new_users),
        forall|f: u64| pre.users_map().contains_key(f) ==> #[trigger] post.users_map().contains_key(f),
    ensures
        post.wf(),
{
    assert(forall|i: int|
        0 <= i < post.signers@.len() ==> post.has_user(#[trigger] post.signers@[i].fid));
    assert(forall|i: int|
        0 <= i < post.links@.len() ==> post.has_user(#[trigger] post.links@[i].fid)
            && post.has_user(post.links@[i].target));
}

} // verus!
