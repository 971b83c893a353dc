//! Namespace management for multi-tenancy.
use crate::platform::{new_uuid_string, unix_time_secs};
use crate::security::error::SecurityError;
use vstd::hash_map::StringHashMap;
use vstd::prelude::*;

verus! {

/// Namespace quota
#[derive(Debug, Clone, Copy, PartialEq, Eq, Structural)]
pub struct NamespaceQuota {
    /// Maximum storage in bytes
    pub max_storage: u64,
    /// Current storage usage
    pub current_storage: u64,
    /// Maximum number of tables
    pub max_tables: usize,
    /// Current number of tables
    pub current_tables: usize,
}

impl NamespaceQuota {
    /// A quota with nothing used yet.
    pub fn new(max_storage: u64, max_tables: usize) -> (q: Self)
        ensures
            q == (NamespaceQuota { max_storage, current_storage: 0, max_tables, current_tables: 0 }),
    {
        NamespaceQuota { max_storage, current_storage: 0, max_tables, current_tables: 0 }
    }

    /// Whether `size` more bytes fit in the quota.
    pub fn can_allocate(&self, size: u64) -> (b: bool)
        ensures
            b == (self.current_storage + size <= self.max_storage),
    {
        self.current_storage <= self.max_storage && size <= self.max_storage - self.current_storage
    }

    /// Whether one more table fits in the quota.
    pub fn can_create_table(&self) -> (b: bool)
        ensures
            b == (self.current_tables < self.max_tables),
    {
        self.current_tables < self.max_tables
    }
}

/// Namespace (tenant)
#[derive(Debug)]
pub struct Namespace {
    pub id: String,
    pub name: String,
    pub quota: NamespaceQuota,
    pub created_at: u64,
}

impl Namespace {
    /// A copy of the namespace.
    pub fn duplicate(&self) -> (n: Self)
        ensures
            n == *self,
    {
        Namespace { id: self.id.clone(), name: self.name.clone(), quota: self.quota, created_at: self.created_at }
    }
}

/// Storage usage after adding `delta` bytes (clamped at zero).
pub open spec fn spec_usage_after(current: u64, delta: i64) -> u64 {
    if delta >= 0 {
        (current + delta) as u64
    } else if current >= -delta {
        (current + delta) as u64
    } else {
        0
    }
}

/// Namespace manager
pub struct NamespaceManager {
    namespaces: StringHashMap<Namespace>,
    user_namespaces: StringHashMap<String>,
}

impl NamespaceManager {
    /// Namespaces by id.
    pub closed spec fn spec_namespaces(&self) -> Map<Seq<char>, Namespace> {
        self.namespaces@
    }

    /// The namespace id each user is assigned to.
    pub closed spec fn spec_assignments(&self) -> Map<Seq<char>, Seq<char>> {
        Map::new(|u: Seq<char>| self.user_namespaces@.contains_key(u), |u: Seq<char>| self.user_namespaces@[u]@)
    }

    /// A manager with no namespaces.
    pub fn new() -> (m: Self)
        ensures
            m.spec_namespaces() == Map::<Seq<char>, Namespace>::empty(),
            m.spec_assignments() == Map::<Seq<char>, Seq<char>>::empty(),
    {
        let m = NamespaceManager { namespaces: StringHashMap::new(), user_namespaces: StringHashMap::new() };
        assert(m.spec_assignments() =~= Map::<Seq<char>, Seq<char>>::empty());
        m
    }

    /// Creates namespace `name` with identifier `id` at time `now` (seconds).
    pub fn create_namespace_with(&mut self, name: &str, max_storage: u64, max_tables: usize, id: String, now: u64)
        -> (r: Result<Namespace, SecurityError>)
        ensures
            r matches Ok(ns) && ns == (Namespace {
                id,
                name: ns.name,
                quota: NamespaceQuota { max_storage, current_storage: 0, max_tables, current_tables: 0 },
                created_at: now,
            }) && ns.name@ == name@,
            r matches Ok(ns) && final(self).spec_namespaces() == old(self).spec_namespaces().insert(id@, ns),
            final(self).spec_assignments() == old(self).spec_assignments(),
    {
        let namespace = Namespace {
            id: id.clone(),
            name: name.to_owned(),
            quota: NamespaceQuota::new(max_storage, max_tables),
            created_at: now,
        };
        let stored = namespace.duplicate();
        self.namespaces.insert(id, stored);
        Ok(namespace)
    }

    /// Creates namespace `name` with a fresh random identifier; fails, changing
    /// nothing, when no random identifier can be drawn.
    pub fn create_namespace(&mut self, name: &str, max_storage: u64, max_tables: usize) -> (r: Result<Namespace, SecurityError>)
        ensures
            match r {
                Ok(ns) => {
                    &&& ns.name@ == name@
                    &&& ns.id@.len() == 36
                    &&& ns.quota == (NamespaceQuota { max_storage, current_storage: 0, max_tables, current_tables: 0 })
                    &&& final(self).spec_namespaces() == old(self).spec_namespaces().insert(ns.id@, ns)
                },
                Err(e) => {
                    &&& e matches SecurityError::NamespaceError(m) && m@ == "Failed to generate namespace id"@
                    &&& final(self).spec_namespaces() == old(self).spec_namespaces()
                },
            },
            final(self).spec_assignments() == old(self).spec_assignments(),
    {
        let id = match new_uuid_string() {
            Some(id) => id,
            None => {
                return Err(SecurityError::NamespaceError("Failed to generate namespace id".to_owned()));
            },
        };
        let now = unix_time_secs();
        self.create_namespace_with(name, max_storage, max_tables, id, now)
    }

    /// Assigns `user_id` to the namespace `namespace_id`, which must exist.
    pub fn assign_user_to_namespace(&mut self, user_id: &str, namespace_id: &str) -> (r: Result<(), SecurityError>)
        ensures
            final(self).spec_namespaces() == old(self).spec_namespaces(),
            match r {
                Ok(()) => {
                    &&& old(self).spec_namespaces().contains_key(namespace_id@)
                    &&& final(self).spec_assignments() == old(self).spec_assignments().insert(user_id@, namespace_id@)
                },
                Err(SecurityError::NamespaceError(m)) => {
                    &&& !old(self).spec_namespaces().contains_key(namespace_id@)
                    &&& m@ == "Namespace not found"@
                    &&& final(self).spec_assignments() == old(self).spec_assignments()
                },
                Err(_) => false,
            },
    {
        if !self.namespaces.contains_key(namespace_id) {
            return Err(SecurityError::NamespaceError("Namespace not found".to_owned()));
        }
        let ghost before = self.spec_assignments();
        self.user_namespaces.insert(user_id.to_owned(), namespace_id.to_owned());
        assert(self.spec_assignments() =~= before.insert(user_id@, namespace_id@));
        Ok(())
    }

    /// The namespace `user_id` is assigned to.
    pub fn get_user_namespace(&self, user_id: &str) -> (r: Result<Namespace, SecurityError>)
        ensures
            match r {
                Ok(ns) => {
                    &&& self.spec_assignments().contains_key(user_id@)
                    &&& self.spec_namespaces().contains_key(self.spec_assignments()[user_id@])
                    &&& ns == self.spec_namespaces()[self.spec_assignments()[user_id@]]
                },
                Err(SecurityError::NamespaceError(m)) => {
                    ||| (!self.spec_assignments().contains_key(user_id@) && m@ == "User not assigned to namespace"@)
                    ||| (self.spec_assignments().contains_key(user_id@)
                        && !self.spec_namespaces().contains_key(self.spec_assignments()[user_id@])
                        && m@ == "Namespace not found"@)
                },
                Err(_) => false,
            },
    {
        let namespace_id = match self.user_namespaces.get(user_id) {
            Some(id) => id,
            None => {
                return Err(SecurityError::NamespaceError("User not assigned to namespace".to_owned()));
            },
        };
        match self.namespaces.get(namespace_id.as_str()) {
            Some(ns) => Ok(ns.duplicate()),
            None => Err(SecurityError::NamespaceError("Namespace not found".to_owned())),
        }
    }

    /// The namespace with identifier `namespace_id`, if any.
    pub fn get_namespace(&self, namespace_id: &str) -> (r: Option<Namespace>)
        ensures
            r == if self.spec_namespaces().contains_key(namespace_id@) {
                Some(self.spec_namespaces()[namespace_id@])
            } else {
                None::<Namespace>
            },
    {
        match self.namespaces.get(namespace_id) {
            Some(ns) => Some(ns.duplicate()),
            None => None,
        }
    }

    /// Adds `delta` bytes to the storage used by a namespace (removing more
    /// than it uses leaves zero).
    pub fn update_storage_usage(&mut self, namespace_id: &str, delta: i64) -> (r: Result<(), SecurityError>)
        requires
            delta > i64::MIN,
            delta >= 0 && old(self).spec_namespaces().contains_key(namespace_id@) ==>
                old(self).spec_namespaces()[namespace_id@].quota.current_storage + delta <= u64::MAX,
        ensures
            final(self).spec_assignments() == old(self).spec_assignments(),
            match r {
                Ok(()) => {
                    let ns = old(self).spec_namespaces()[namespace_id@];
                    &&& old(self).spec_namespaces().contains_key(namespace_id@)
                    &&& final(self).spec_namespaces() == old(self).spec_namespaces().insert(
                        namespace_id@,
                        Namespace {
                            quota: NamespaceQuota {
                                current_storage: spec_usage_after(ns.quota.current_storage, delta),
                                ..ns.quota
                            },
                            ..ns
                        },
                    )
                },
                Err(SecurityError::NamespaceError(m)) => {
                    &&& !old(self).spec_namespaces().contains_key(namespace_id@)
                    &&& m@ == "Namespace not found"@
                    &&& final(self).spec_namespaces() == old(self).spec_namespaces()
                },
                Err(_) => false,
            },
    {
        let mut ns = match self.namespaces.get(namespace_id) {
            Some(ns) => ns.duplicate(),
            None => {
                return Err(SecurityError::NamespaceError("Namespace not found".to_owned()));
            },
        };
        if delta >= 0 {
            ns.quota.current_storage = ns.quota.current_storage + (delta as u64);
        } else {
            ns.quota.current_storage = ns.quota.current_storage.saturating_sub((-delta) as u64);
        }
        self.namespaces.insert(namespace_id.to_owned(), ns);
        Ok(())
    }

    /// Number of namespaces.
    pub fn namespace_count(&self) -> (n: usize)
        ensures
            n == self.spec_namespaces().len(),
    {
        self.namespaces.len()
    }
}

/// After a user is assigned to an existing namespace, looking up the user's
/// namespace finds that namespace.
pub proof fn lemma_assigned_user_finds_namespace(
    before: NamespaceManager,
    after: NamespaceManager,
    user_id: Seq<char>,
    namespace_id: Seq<char>,
)
    requires
        before.spec_namespaces().contains_key(namespace_id),
        after.spec_namespaces() == before.spec_namespaces(),
        after.spec_assignments() == before.spec_assignments().insert(user_id, namespace_id),
    ensures
        after.spec_assignments().contains_key(user_id),
        after.spec_namespaces().contains_key(after.spec_assignments()[user_id]),
        after.spec_namespaces()[after.spec_assignments()[user_id]] == before.spec_namespaces()[namespace_id],
{
}

impl Default for NamespaceManager {
    fn default() -> (m: Self)
        ensures
            m.spec_namespaces() == Map::<Seq<char>, Namespace>::empty(),
            m.spec_assignments() == Map::<Seq<char>, Seq<char>>::empty(),
    {
        Self::new()
    }
}

} // verus!
