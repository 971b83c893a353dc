//! Role-Based Access Control (RBAC).
use crate::security::error::SecurityError;
use vstd::hash_map::StringHashMap;
use vstd::prelude::*;

verus! {

/// Role
#[derive(Debug, Clone, Copy, PartialEq, Eq, Hash, Structural)]
pub enum Role {
    /// Administrator (full access)
    Admin,
    /// Read and write access
    ReadWrite,
    /// Read-only access
    ReadOnly,
    /// Custom role
    Custom,
}

/// Permission
#[derive(Debug, Clone, Copy, PartialEq, Eq, Hash, Structural)]
pub enum Permission {
    /// Read permission
    Read,
    /// Write permission
    Write,
    /// Delete permission
    Delete,
    /// Admin permission
    Admin,
}

/// A set of permissions.
#[derive(Debug, Clone, Copy, PartialEq, Eq, Structural)]
pub struct PermissionSet {
    read: bool,
    write: bool,
    delete: bool,
    admin: bool,
}

impl View for PermissionSet {
    type V = Set<Permission>;

    closed spec fn view(&self) -> Set<Permission> {
        Set::new(|p: Permission| self.spec_contains(p))
    }
}

impl PermissionSet {
    pub closed spec fn spec_contains(&self, p: Permission) -> bool {
        match p {
            Permission::Read => self.read,
            Permission::Write => self.write,
            Permission::Delete => self.delete,
            Permission::Admin => self.admin,
        }
    }

    /// Number of permissions held.
    pub closed spec fn spec_len(&self) -> nat {
        (if self.read { 1nat } else { 0nat }) + (if self.write { 1nat } else { 0nat })
            + (if self.delete { 1nat } else { 0nat }) + (if self.admin { 1nat } else { 0nat })
    }

    /// The empty set.
    pub fn new() -> (s: Self)
        ensures
            s@ == Set::<Permission>::empty(),
            s.spec_len() == 0,
    {
        let s = PermissionSet { read: false, write: false, delete: false, admin: false };
        assert(s@ =~= Set::<Permission>::empty());
        s
    }

    /// Whether `p` is in the set.
    pub fn contains(&self, p: Permission) -> (b: bool)
        ensures
            b == self@.contains(p),
    {
        match p {
            Permission::Read => self.read,
            Permission::Write => self.write,
            Permission::Delete => self.delete,
            Permission::Admin => self.admin,
        }
    }

    /// Adds `p`.
    pub fn insert(&mut self, p: Permission)
        ensures
            final(self)@ == old(self)@.insert(p),
            final(self).spec_len() == old(self).spec_len() + if old(self)@.contains(p) { 0nat } else { 1nat },
    {
        match p {
            Permission::Read => self.read = true,
            Permission::Write => self.write = true,
            Permission::Delete => self.delete = true,
            Permission::Admin => self.admin = true,
        }
        assert(self@ =~= old(self)@.insert(p));
    }

    /// Number of permissions held.
    pub fn len(&self) -> (n: usize)
        ensures
            n == self.spec_len(),
    {
        let mut n: usize = 0;
        if self.read { n = n + 1; }
        if self.write { n = n + 1; }
        if self.delete { n = n + 1; }
        if self.admin { n = n + 1; }
        n
    }
}

/// The permissions each role grants.
pub open spec fn spec_role_permissions(role: Role) -> Set<Permission> {
    match role {
        Role::Admin => set![Permission::Read, Permission::Write, Permission::Delete, Permission::Admin],
        Role::ReadWrite => set![Permission::Read, Permission::Write],
        Role::ReadOnly => set![Permission::Read],
        Role::Custom => Set::empty(),
    }
}

/// Number of permissions each role grants.
pub open spec fn spec_role_permission_count(role: Role) -> nat {
    match role {
        Role::Admin => 4,
        Role::ReadWrite => 2,
        Role::ReadOnly => 1,
        Role::Custom => 0,
    }
}

impl Role {
    /// Permissions for role
    pub fn permissions(&self) -> (s: PermissionSet)
        ensures
            s@ == spec_role_permissions(*self),
            s.spec_len() == spec_role_permission_count(*self),
    {
        let mut s = PermissionSet::new();
        match self {
            Role::Admin => {
                s.insert(Permission::Read);
                s.insert(Permission::Write);
                s.insert(Permission::Delete);
                s.insert(Permission::Admin);
            },
            Role::ReadWrite => {
                s.insert(Permission::Read);
                s.insert(Permission::Write);
            },
            Role::ReadOnly => {
                s.insert(Permission::Read);
            },
            Role::Custom => {},
        }
        assert(s@ =~= spec_role_permissions(*self));
        s
    }

    /// The role's name as its `Debug` form writes it.
    pub fn name(&self) -> (s: String)
        ensures
            s@ == spec_role_name(*self),
    {
        match self {
            Role::Admin => "Admin".to_owned(),
            Role::ReadWrite => "ReadWrite".to_owned(),
            Role::ReadOnly => "ReadOnly".to_owned(),
            Role::Custom => "Custom".to_owned(),
        }
    }
}

/// The name of each role.
pub open spec fn spec_role_name(role: Role) -> Seq<char> {
    match role {
        Role::Admin => "Admin"@,
        Role::ReadWrite => "ReadWrite"@,
        Role::ReadOnly => "ReadOnly"@,
        Role::Custom => "Custom"@,
    }
}

/// Roles are ordered by what they grant: every permission of ReadOnly is one
/// of ReadWrite's, every permission of ReadWrite is one of Admin's, Custom
/// grants nothing by itself, and Admin grants every permission.
pub proof fn lemma_role_hierarchy(p: Permission)
    ensures
        spec_role_permissions(Role::Admin).contains(p),
        spec_role_permissions(Role::ReadOnly).contains(p) ==> spec_role_permissions(Role::ReadWrite).contains(p),
        spec_role_permissions(Role::ReadWrite).contains(p) ==> spec_role_permissions(Role::Admin).contains(p),
        !spec_role_permissions(Role::Custom).contains(p),
{
}

/// Whether a user holds `permission`: through the role, or through a custom
/// grant.
pub open spec fn spec_granted(role: Role, custom: Option<Set<Permission>>, permission: Permission) -> bool {
    spec_role_permissions(role).contains(permission) || (custom matches Some(c) && c.contains(permission))
}

/// RBAC manager
pub struct RbacManager {
    /// User roles
    user_roles: StringHashMap<Role>,
    /// Custom permissions (for Custom role)
    custom_permissions: StringHashMap<PermissionSet>,
    /// Resource permissions (resource -> required permission)
    resource_permissions: StringHashMap<Permission>,
}

impl RbacManager {
    /// Each user's role.
    pub closed spec fn spec_roles(&self) -> Map<Seq<char>, Role> {
        self.user_roles@
    }

    /// Each user's custom grants.
    pub closed spec fn spec_custom(&self) -> Map<Seq<char>, Set<Permission>> {
        Map::new(|u: Seq<char>| self.custom_permissions@.contains_key(u), |u: Seq<char>| self.custom_permissions@[u]@)
    }

    /// The permission each resource requires.
    pub closed spec fn spec_resources(&self) -> Map<Seq<char>, Permission> {
        self.resource_permissions@
    }

    /// The custom grants of `user`, if any.
    pub open spec fn spec_custom_of(&self, user: Seq<char>) -> Option<Set<Permission>> {
        if self.spec_custom().contains_key(user) { Some(self.spec_custom()[user]) } else { None }
    }

    /// A manager with no roles or grants.
    pub fn new() -> (m: Self)
        ensures
            m.spec_roles() == Map::<Seq<char>, Role>::empty(),
            m.spec_custom() == Map::<Seq<char>, Set<Permission>>::empty(),
            m.spec_resources() == Map::<Seq<char>, Permission>::empty(),
    {
        let m = RbacManager {
            user_roles: StringHashMap::new(),
            custom_permissions: StringHashMap::new(),
            resource_permissions: StringHashMap::new(),
        };
        assert(m.spec_custom() =~= Map::<Seq<char>, Set<Permission>>::empty());
        m
    }

    /// Assigns `role` to `user_id`, replacing any earlier role.
    pub fn assign_role(&mut self, user_id: &str, role: Role) -> (r: Result<(), SecurityError>)
        ensures
            r is Ok,
            final(self).spec_roles() == old(self).spec_roles().insert(user_id@, role),
            final(self).spec_custom() == old(self).spec_custom(),
            final(self).spec_resources() == old(self).spec_resources(),
    {
        self.user_roles.insert(user_id.to_owned(), role);
        Ok(())
    }

    /// The role of `user_id`.
    pub fn get_role(&self, user_id: &str) -> (r: Option<Role>)
        ensures
            r == if self.spec_roles().contains_key(user_id@) { Some(self.spec_roles()[user_id@]) } else { None::<Role> },
    {
        match self.user_roles.get(user_id) {
            Some(r) => Some(*r),
            None => None,
        }
    }

    /// Grants `permission` to `user_id` on top of the role.
    pub fn add_custom_permission(&mut self, user_id: &str, permission: Permission)
        ensures
            final(self).spec_roles() == old(self).spec_roles(),
            final(self).spec_resources() == old(self).spec_resources(),
            final(self).spec_custom() == old(self).spec_custom().insert(
                user_id@,
                match old(self).spec_custom_of(user_id@) {
                    Some(c) => c.insert(permission),
                    None => set![permission],
                },
            ),
    {
        let mut set = match self.custom_permissions.get(user_id) {
            Some(s) => *s,
            None => PermissionSet::new(),
        };
        set.insert(permission);
        let ghost before = old(self).spec_custom();
        self.custom_permissions.insert(user_id.to_owned(), set);
        proof {
            assert(set@ == match old(self).spec_custom_of(user_id@) {
                Some(c) => c.insert(permission),
                None => set![permission],
            }) by {
                if !old(self).spec_custom().contains_key(user_id@) {
                    assert(Set::<Permission>::empty().insert(permission) =~= set![permission]);
                }
            }
            assert(self.spec_custom() =~= before.insert(user_id@, set@));
        }
    }

    /// Whether `user_id` holds `permission`; an error for a user with no role.
    pub fn check_permission(&self, user_id: &str, permission: Permission, _resource: &str) -> (r: Result<bool, SecurityError>)
        ensures
            match r {
                Ok(b) => self.spec_roles().contains_key(user_id@) && b == spec_granted(
                    self.spec_roles()[user_id@],
                    self.spec_custom_of(user_id@),
                    permission,
                ),
                Err(SecurityError::UserNotFound(u)) => !self.spec_roles().contains_key(user_id@) && u@ == user_id@,
                Err(_) => false,
            },
    {
        let role = match self.get_role(user_id) {
            Some(r) => r,
            None => {
                return Err(SecurityError::UserNotFound(user_id.to_owned()));
            },
        };
        if role.permissions().contains(permission) {
            return Ok(true);
        }
        match self.custom_permissions.get(user_id) {
            Some(perms) => {
                if perms.contains(permission) {
                    return Ok(true);
                }
            },
            None => {},
        }
        Ok(false)
    }

    /// Records the permission that `resource` requires.
    pub fn set_resource_permission(&mut self, resource: &str, permission: Permission)
        ensures
            final(self).spec_roles() == old(self).spec_roles(),
            final(self).spec_custom() == old(self).spec_custom(),
            final(self).spec_resources() == old(self).spec_resources().insert(resource@, permission),
    {
        self.resource_permissions.insert(resource.to_owned(), permission);
    }
}

impl Default for RbacManager {
    fn default() -> (m: Self)
        ensures
            m.spec_roles() == Map::<Seq<char>, Role>::empty(),
            m.spec_custom() == Map::<Seq<char>, Set<Permission>>::empty(),
            m.spec_resources() == Map::<Seq<char>, Permission>::empty(),
    {
        Self::new()
    }
}


/// Once a role is assigned, a permission check for that user no longer
/// fails, and grants every permission the role carries (whatever custom
/// grants the user has); other users keep their roles.
pub proof fn lemma_assigned_role_grants(before: RbacManager, after: RbacManager, user: Seq<char>, role: Role, p: Permission)
    requires
        after.spec_roles() == before.spec_roles().insert(user, role),
        after.spec_custom() == before.spec_custom(),
    ensures
        after.spec_roles().contains_key(user),
        after.spec_roles()[user] == role,
        spec_role_permissions(role).contains(p) ==> spec_granted(after.spec_roles()[user], after.spec_custom_of(user), p),
        after.spec_custom_of(user) == before.spec_custom_of(user),
        forall|u: Seq<char>| u != user ==> #[trigger] after.spec_roles().contains_key(u) == before.spec_roles().contains_key(u),
{
}


/// A custom grant is honoured whatever the user's role: a user who has a role
/// and a custom grant of `p` holds `p`, and a user holds `p` exactly when the
/// role carries it or a custom grant of `p` exists.
pub proof fn lemma_custom_grant_holds(m: RbacManager, user: Seq<char>, p: Permission)
    requires
        m.spec_roles().contains_key(user),
    ensures
        (m.spec_custom_of(user) matches Some(c) && c.contains(p)) ==> spec_granted(m.spec_roles()[user], m.spec_custom_of(user), p),
        spec_granted(m.spec_roles()[user], m.spec_custom_of(user), p) <==> (spec_role_permissions(m.spec_roles()[user]).contains(p)
            || (m.spec_custom().contains_key(user) && m.spec_custom()[user].contains(p))),
{
}

/// After `add_custom_permission(user, p)`, a user who has a role holds `p`,
/// whatever that role is, and keeps every permission held before.
pub proof fn lemma_added_custom_permission_grants(before: RbacManager, after: RbacManager, user: Seq<char>, p: Permission, q: Permission)
    requires
        before.spec_roles().contains_key(user),
        after.spec_roles() == before.spec_roles(),
        after.spec_custom() == before.spec_custom().insert(
            user,
            match before.spec_custom_of(user) {
                Some(c) => c.insert(p),
                None => set![p],
            },
        ),
    ensures
        spec_granted(after.spec_roles()[user], after.spec_custom_of(user), p),
        spec_granted(before.spec_roles()[user], before.spec_custom_of(user), q)
            ==> spec_granted(after.spec_roles()[user], after.spec_custom_of(user), q),
{
}


/// Exactly what each role grants by itself: read-only grants only reading,
/// read-write grants reading and writing, admin grants everything, custom
/// grants nothing.
pub proof fn lemma_role_grants(p: Permission)
    ensures
        spec_role_permissions(Role::ReadOnly).contains(p) <==> p == Permission::Read,
        spec_role_permissions(Role::ReadWrite).contains(p) <==> (p == Permission::Read || p == Permission::Write),
        spec_role_permissions(Role::Admin).contains(p),
        !spec_role_permissions(Role::Custom).contains(p),
        spec_granted(Role::Custom, None, p) == false,
{
}

} // verus!
