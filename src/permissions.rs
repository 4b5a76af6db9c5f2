//! Who may see and change which network: per-network grants of a user, and
//! the checks that gate each kind of operation. Administrators may do all.
use vstd::prelude::*;

verus! {

/// What a user may do on one network.
#[derive(Debug, Clone, Copy, PartialEq, Eq, Structural, Default)]
pub struct NetworkPermissions {
    /// See the network and its members.
    pub read: bool,
    /// Authorize and deauthorize members.
    pub authorize: bool,
    /// Change the network's settings, pools and routes.
    pub modify: bool,
    /// Delete the network or remove members.
    pub delete: bool,
}

pub open spec fn no_permissions() -> NetworkPermissions {
    NetworkPermissions { read: false, authorize: false, modify: false, delete: false }
}

pub open spec fn any_permission(p: NetworkPermissions) -> bool {
    p.read || p.authorize || p.modify || p.delete
}

impl NetworkPermissions {
    /// Every permission.
    pub fn full() -> (r: NetworkPermissions)
        ensures
            r.read && r.authorize && r.modify && r.delete,
    {
        NetworkPermissions { read: true, authorize: true, modify: true, delete: true }
    }

    pub fn has_any(&self) -> (r: bool)
        ensures
            r == any_permission(*self),
    {
        self.read || self.authorize || self.modify || self.delete
    }
}

/// The grant of a user on one network.
#[derive(Debug, Clone)]
pub struct NetworkGrant {
    pub nwid: String,
    pub permissions: NetworkPermissions,
}

/// A user account. `created_at` is in seconds since the epoch; the grants
/// name each network at most once.
#[derive(Debug, Clone)]
pub struct User {
    pub id: u64,
    pub username: String,
    pub password_hash: String,
    pub is_admin: bool,
    pub network_permissions: Vec<NetworkGrant>,
    pub created_at: i64,
}

/// The grant recorded for `nwid`, the first one that names it.
pub open spec fn grant_for(grants: Seq<NetworkGrant>, nwid: Seq<char>) -> Option<NetworkPermissions>
    decreases grants.len(),
{
    if grants.len() == 0 {
        None
    } else if grants[0].nwid@ == nwid {
        Some(grants[0].permissions)
    } else {
        grant_for(grants.drop_first(), nwid)
    }
}

/// What the user may do on `nwid`: everything for an administrator, else
/// the recorded grant, else nothing.
pub open spec fn permissions_on(u: User, nwid: Seq<char>) -> NetworkPermissions {
    if u.is_admin {
        NetworkPermissions { read: true, authorize: true, modify: true, delete: true }
    } else {
        match grant_for(u.network_permissions@, nwid) {
            Some(p) => p,
            None => no_permissions(),
        }
    }
}

/// The number of grants that allow something.
pub open spec fn useful_grants(grants: Seq<NetworkGrant>) -> nat
    decreases grants.len(),
{
    if grants.len() == 0 {
        0
    } else {
        useful_grants(grants.drop_last()) + if any_permission(grants.last().permissions) {
            1nat
        } else {
            0nat
        }
    }
}

impl User {
    /// An administrator with no per-network grants.
    pub fn new_admin(id: u64, username: String, password_hash: String, created_at: i64) -> (r: User)
        ensures
            r.id == id,
            r.username == username,
            r.password_hash == password_hash,
            r.is_admin,
            r.network_permissions@.len() == 0,
            r.created_at == created_at,
    {
        User {
            id,
            username,
            password_hash,
            is_admin: true,
            network_permissions: Vec::new(),
            created_at,
        }
    }

    /// A user with no per-network grants.
    pub fn new(id: u64, username: String, password_hash: String, is_admin: bool, created_at: i64) -> (r: User)
        ensures
            r.id == id,
            r.username == username,
            r.password_hash == password_hash,
            r.is_admin == is_admin,
            r.network_permissions@.len() == 0,
            r.created_at == created_at,
    {
        User { id, username, password_hash, is_admin, network_permissions: Vec::new(), created_at }
    }

    pub fn get_network_permissions(&self, nwid: &str) -> (r: NetworkPermissions)
        ensures
            r == permissions_on(*self, nwid@),
    {
        if self.is_admin {
            return NetworkPermissions::full();
        }
        let ghost g = self.network_permissions@;
        let mut i: usize = 0;
        assert(g.skip(0) =~= g);
        while i < self.network_permissions.len()
            invariant
                !self.is_admin,
                g == self.network_permissions@,
                i <= g.len(),
                grant_for(g, nwid@) == grant_for(g.skip(i as int), nwid@),
            decreases g.len() - i,
        {
            proof {
                assert(g.skip(i as int).drop_first() =~= g.skip(i + 1));
                assert(g.skip(i as int)[0] == g[i as int]);
            }
            if self.network_permissions[i].nwid == nwid.to_owned() {
                return self.network_permissions[i].permissions;
            }
            i = i + 1;
        }
        NetworkPermissions { read: false, authorize: false, modify: false, delete: false }
    }

    /// Whether the user may see some network: administrators always.
    pub fn can_access_any_network(&self) -> (r: bool)
        ensures
            r == (self.is_admin || useful_grants(self.network_permissions@) > 0),
    {
        if self.is_admin {
            return true;
        }
        self.accessible_network_count() > 0
    }

    /// How many networks the user has some permission on; `usize::MAX`
    /// stands for all of them, for an administrator.
    pub fn accessible_network_count(&self) -> (r: usize)
        ensures
            self.is_admin ==> r == usize::MAX,
            !self.is_admin ==> r == useful_grants(self.network_permissions@),
    {
        if self.is_admin {
            return usize::MAX;
        }
        let ghost g = self.network_permissions@;
        let mut count: usize = 0;
        let mut i: usize = 0;
        while i < self.network_permissions.len()
            invariant
                g == self.network_permissions@,
                i <= g.len(),
                count == useful_grants(g.take(i as int)),
                count <= i,
            decreases g.len() - i,
        {
            proof {
                assert(g.take(i + 1).drop_last() =~= g.take(i as int));
            }
            if self.network_permissions[i].permissions.has_any() {
                count = count + 1;
            }
            i = i + 1;
        }
        proof {
            assert(g.take(g.len() as int) =~= g);
        }
        count
    }
}

pub fn can_read(user: &User, nwid: &str) -> (r: bool)
    ensures
        r == permissions_on(*user, nwid@).read,
{
    user.is_admin || user.get_network_permissions(nwid).read
}

pub fn can_authorize(user: &User, nwid: &str) -> (r: bool)
    ensures
        r == permissions_on(*user, nwid@).authorize,
{
    user.is_admin || user.get_network_permissions(nwid).authorize
}

pub fn can_modify(user: &User, nwid: &str) -> (r: bool)
    ensures
        r == permissions_on(*user, nwid@).modify,
{
    user.is_admin || user.get_network_permissions(nwid).modify
}

pub fn can_delete(user: &User, nwid: &str) -> (r: bool)
    ensures
        r == permissions_on(*user, nwid@).delete,
{
    user.is_admin || user.get_network_permissions(nwid).delete
}

/// Administrators manage users and create networks.
pub fn is_admin(user: &User) -> (r: bool)
    ensures
        r == user.is_admin,
{
    user.is_admin
}

pub fn has_any_permission(user: &User, nwid: &str) -> (r: bool)
    ensures
        r == any_permission(permissions_on(*user, nwid@)),
{
    user.is_admin || user.get_network_permissions(nwid).has_any()
}

} // verus!
