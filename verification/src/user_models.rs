use vstd::prelude::*;

verus! {

/// The canonical user view exposed at the API boundary; built on hub fetch
/// and on store read, never mutated in place.
#[derive(Debug, Clone, PartialEq, Eq)]
pub struct Profile {
    pub fid: u64,
    pub username: Option<String>,
    pub display_name: Option<String>,
    pub profile_picture: Option<String>,
    pub bio: Option<String>,
    pub url: Option<String>,
}

/// Persisted form of [`Profile`]: one row per `fid`.  May be created empty
/// (all text columns null) as a placeholder so that foreign keys hold
/// before the real profile is fetched.
///
/// The relational backend stores `fid` in a signed 64-bit column with the
/// same bit pattern; the model keeps the wire-level unsigned id.
#[derive(Debug, Clone, PartialEq, Eq)]
pub struct User {
    pub fid: u64,
    pub username: Option<String>,
    pub display_name: Option<String>,
    pub bio: Option<String>,
    pub url: Option<String>,
    pub profile_pic: Option<String>,
}

/// A signing key authorized (or revoked) for an fid; `pk` is the primary
/// key of the signer table.
#[derive(Debug, Clone, PartialEq, Eq, Hash)]
pub struct Signer {
    pub pk: Vec<u8>,
    pub fid: u64,
    pub active: bool,
}

/// Mathematical image of a [`Signer`]: the key as a byte sequence.
pub struct SignerV {
    pub pk: Seq<u8>,
    pub fid: u64,
    pub active: bool,
}

impl View for Signer {
    type V = SignerV;

    open spec fn view(&self) -> SignerV {
        SignerV { pk: self.pk@, fid: self.fid, active: self.active }
    }
}

/// A directed follow edge `(fid -> target)` with its creation time in unix
/// seconds; keyed by the pair of endpoints.
#[derive(Debug, Clone, Copy, PartialEq, Eq, Hash, Structural)]
pub struct Link {
    pub fid: u64,
    pub target: u64,
    pub timestamp: u64,
}

/// A stored notification row; reserved, no live path writes it.
#[derive(Debug, Clone, PartialEq, Eq)]
pub struct Notification {
    pub notification_id: u128,
    pub fid: u64,
    pub notification_type: i32,
    pub notification_data: Vec<u8>,
    pub created: u64,
    pub viewed: bool,
}

/// Mathematical image of a [`Notification`].
pub struct NotificationV {
    pub notification_id: u128,
    pub fid: u64,
    pub notification_type: i32,
    pub notification_data: Seq<u8>,
    pub created: u64,
    pub viewed: bool,
}

impl View for Notification {
    type V = NotificationV;

    open spec fn view(&self) -> NotificationV {
        NotificationV {
            notification_id: self.notification_id,
            fid: self.fid,
            notification_type: self.notification_type,
            notification_data: self.notification_data@,
            created: self.created,
            viewed: self.viewed,
        }
    }
}

/// Identifier of a cast: the author and the message hash.
#[derive(Debug, Clone, PartialEq, Eq, Hash)]
pub struct CastId {
    pub fid: u64,
    pub hash: Vec<u8>,
}

/// Mathematical image of a [`CastId`].
pub struct CastIdV {
    pub fid: u64,
    pub hash: Seq<u8>,
}

impl View for CastId {
    type V = CastIdV;

    open spec fn view(&self) -> CastIdV {
        CastIdV { fid: self.fid, hash: self.hash@ }
    }
}

/// The placeholder row for `fid` with all text columns null.
pub open spec fn spec_empty_user(fid: u64) -> User {
    User { fid, username: None, display_name: None, bio: None, url: None, profile_pic: None }
}

/// The row a profile is persisted as.
pub open spec fn spec_user_of(p: Profile) -> User {
    User {
        fid: p.fid,
        username: p.username,
        display_name: p.display_name,
        bio: p.bio,
        url: p.url,
        profile_pic: p.profile_picture,
    }
}

/// The profile a stored row reads back as.
pub open spec fn spec_profile_of(u: User) -> Profile {
    Profile {
        fid: u.fid,
        username: u.username,
        display_name: u.display_name,
        profile_picture: u.profile_pic,
        bio: u.bio,
        url: u.url,
    }
}

/// Copy an optional text column, preserving the value.
pub fn clone_opt_text(s: &Option<String>) -> (r: Option<String>)
    ensures
        r == *s,
{
    match s {
        Some(x) => Some(x.clone()),
        None => None,
    }
}

/// Copy a byte string, preserving its contents.
pub fn clone_bytes(v: &Vec<u8>) -> (r: Vec<u8>)
    ensures
        r@ == v@,
{
    let mut out: Vec<u8> = Vec::new();
    let n = v.len();
    let mut i: usize = 0;
    while i < n
        invariant
            i <= n,
            n == v@.len(),
            out@ == v@.take(i as int),
        decreases n - i,
    {
        out.push(v[i]);
        proof {
            assert(v@.take(i + 1) =~= v@.take(i as int).push(v@[i as int]));
        }
        i = i + 1;
    }
    proof {
        assert(v@.take(n as int) =~= v@);
    }
    out
}

impl User {
    /// Placeholder row carrying only the id; satisfies the foreign keys of
    /// links and signers before a real profile is stored.
    pub fn empty(fid: u64) -> (r: User)
        ensures
            r == spec_empty_user(fid),
    {
        User { fid, bio: None, url: None, profile_pic: None, username: None, display_name: None }
    }

    /// Copy of the row, preserving every column.
    pub fn clone_row(&self) -> (r: User)
        ensures
            r == *self,
    {
        User {
            fid: self.fid,
            username: clone_opt_text(&self.username),
            display_name: clone_opt_text(&self.display_name),
            bio: clone_opt_text(&self.bio),
            url: clone_opt_text(&self.url),
            profile_pic: clone_opt_text(&self.profile_pic),
        }
    }

    /// Read the row back as the API-level profile.
    pub fn to_profile(&self) -> (r: Profile)
        ensures
            r == spec_profile_of(*self),
    {
        Profile {
            fid: self.fid,
            username: clone_opt_text(&self.username),
            display_name: clone_opt_text(&self.display_name),
            profile_picture: clone_opt_text(&self.profile_pic),
            bio: clone_opt_text(&self.bio),
            url: clone_opt_text(&self.url),
        }
    }
}

impl Profile {
    /// The row this profile is persisted as.
    pub fn to_user(&self) -> (r: User)
        ensures
            r == spec_user_of(*self),
    {
        User {
            fid: self.fid,
            username: clone_opt_text(&self.username),
            display_name: clone_opt_text(&self.display_name),
            bio: clone_opt_text(&self.bio),
            url: clone_opt_text(&self.url),
            profile_pic: clone_opt_text(&self.profile_picture),
        }
    }

    /// Copy of the profile, preserving every attribute.
    pub fn clone_profile(&self) -> (r: Profile)
        ensures
            r == *self,
    {
        Profile {
            fid: self.fid,
            username: clone_opt_text(&self.username),
            display_name: clone_opt_text(&self.display_name),
            profile_picture: clone_opt_text(&self.profile_picture),
            bio: clone_opt_text(&self.bio),
            url: clone_opt_text(&self.url),
        }
    }
}

impl Signer {
    /// Copy of the signer, preserving the key bytes.
    pub fn clone_signer(&self) -> (r: Signer)
        ensures
            r@ == self@,
    {
        Signer { pk: clone_bytes(&self.pk), fid: self.fid, active: self.active }
    }
}

impl Notification {
    /// Copy of the row, preserving every column.
    pub fn clone_row(&self) -> (r: Notification)
        ensures
            r@ == self@,
    {
        Notification {
            notification_id: self.notification_id,
            fid: self.fid,
            notification_type: self.notification_type,
            notification_data: clone_bytes(&self.notification_data),
            created: self.created,
            viewed: self.viewed,
        }
    }
}

impl From<Profile> for User {
    fn from(p: Profile) -> User {
        User {
            fid: p.fid,
            username: p.username,
            display_name: p.display_name,
            bio: p.bio,
            url: p.url,
            profile_pic: p.profile_picture,
        }
    }
}

impl vstd::std_specs::convert::FromSpecImpl<Profile> for User {
    open spec fn obeys_from_spec() -> bool {
        true
    }

    open spec fn from_spec(p: Profile) -> User {
        spec_user_of(p)
    }
}

impl From<User> for Profile {
    fn from(u: User) -> Profile {
        Profile {
            fid: u.fid,
            username: u.username,
            display_name: u.display_name,
            profile_picture: u.profile_pic,
            bio: u.bio,
            url: u.url,
        }
    }
}

impl vstd::std_specs::convert::FromSpecImpl<User> for Profile {
    open spec fn obeys_from_spec() -> bool {
        true
    }

    open spec fn from_spec(u: User) -> Profile {
        spec_profile_of(u)
    }
}

/// Round trip: persisting a profile and reading the row back yields the
/// same profile.
pub proof fn lemma_profile_round_trip(p: Profile)
    ensures
        spec_profile_of(spec_user_of(p)) == p,
{
}

} // verus!
