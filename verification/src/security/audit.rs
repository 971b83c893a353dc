//! Audit logging.
use crate::platform::unix_time_secs;
use std::collections::VecDeque;
use vstd::prelude::*;

verus! {

/// Audit event
#[derive(Debug)]
pub enum AuditEvent {
    /// User created
    UserCreated { user_id: String, username: String, tenant: String },
    /// User authenticated
    UserAuthenticated { username: String },
    /// Role assigned
    RoleAssigned { user_id: String, role: String },
    /// Permission checked
    PermissionChecked { user_id: String, permission: String, resource: String, granted: bool },
    /// Data accessed
    DataAccessed { user_id: String, resource: String },
    /// Data modified
    DataModified { user_id: String, resource: String, operation: String },
}

/// The user an event is about; `None` for authentications, which name a
/// username only.
pub open spec fn spec_event_user(e: AuditEvent) -> Option<Seq<char>> {
    match e {
        AuditEvent::UserCreated { user_id, .. } => Some(user_id@),
        AuditEvent::UserAuthenticated { .. } => None,
        AuditEvent::RoleAssigned { user_id, .. } => Some(user_id@),
        AuditEvent::PermissionChecked { user_id, .. } => Some(user_id@),
        AuditEvent::DataAccessed { user_id, .. } => Some(user_id@),
        AuditEvent::DataModified { user_id, .. } => Some(user_id@),
    }
}

impl AuditEvent {
    /// A copy of the event.
    pub fn duplicate(&self) -> (e: Self)
        ensures
            e == *self,
    {
        match self {
            AuditEvent::UserCreated { user_id, username, tenant } => AuditEvent::UserCreated {
                user_id: user_id.clone(),
                username: username.clone(),
                tenant: tenant.clone(),
            },
            AuditEvent::UserAuthenticated { username } => AuditEvent::UserAuthenticated { username: username.clone() },
            AuditEvent::RoleAssigned { user_id, role } => AuditEvent::RoleAssigned {
                user_id: user_id.clone(),
                role: role.clone(),
            },
            AuditEvent::PermissionChecked { user_id, permission, resource, granted } => AuditEvent::PermissionChecked {
                user_id: user_id.clone(),
                permission: permission.clone(),
                resource: resource.clone(),
                granted: *granted,
            },
            AuditEvent::DataAccessed { user_id, resource } => AuditEvent::DataAccessed {
                user_id: user_id.clone(),
                resource: resource.clone(),
            },
            AuditEvent::DataModified { user_id, resource, operation } => AuditEvent::DataModified {
                user_id: user_id.clone(),
                resource: resource.clone(),
                operation: operation.clone(),
            },
        }
    }

    /// Whether the event is about `user_id`.
    pub fn concerns(&self, user_id: &String) -> (b: bool)
        ensures
            b == (spec_event_user(*self) == Some(user_id@)),
    {
        match self {
            AuditEvent::UserCreated { user_id: uid, .. } => *uid == *user_id,
            AuditEvent::UserAuthenticated { .. } => false,
            AuditEvent::RoleAssigned { user_id: uid, .. } => *uid == *user_id,
            AuditEvent::PermissionChecked { user_id: uid, .. } => *uid == *user_id,
            AuditEvent::DataAccessed { user_id: uid, .. } => *uid == *user_id,
            AuditEvent::DataModified { user_id: uid, .. } => *uid == *user_id,
        }
    }
}

/// Audit log entry
#[derive(Debug)]
pub struct AuditLogEntry {
    pub timestamp: u64,
    pub event: AuditEvent,
}

impl AuditLogEntry {
    /// A copy of the entry.
    pub fn duplicate(&self) -> (e: Self)
        ensures
            e == *self,
    {
        AuditLogEntry { timestamp: self.timestamp, event: self.event.duplicate() }
    }
}

/// The last `max` entries of `s` (all of them when there are fewer).
pub open spec fn spec_keep_last(s: Seq<AuditLogEntry>, max: nat) -> Seq<AuditLogEntry> {
    if s.len() > max { s.subrange(s.len() - max, s.len() as int) } else { s }
}

/// The `count` most recent entries of `s`, newest first.
pub open spec fn spec_recent(s: Seq<AuditLogEntry>, count: nat) -> Seq<AuditLogEntry> {
    let n = if count < s.len() { count } else { s.len() };
    Seq::new(n, |i: int| s[s.len() - 1 - i])
}

/// The entries of `s` about `user`, oldest first.
pub open spec fn spec_user_entries(s: Seq<AuditLogEntry>, user: Seq<char>) -> Seq<AuditLogEntry>
    decreases s.len(),
{
    if s.len() == 0 {
        Seq::empty()
    } else if spec_event_user(s.last().event) == Some(user) {
        spec_user_entries(s.drop_last(), user).push(s.last())
    } else {
        spec_user_entries(s.drop_last(), user)
    }
}

/// Whether `after` is `before` with one more entry, whose event satisfies
/// `event`, appended and the oldest dropped beyond `max`.
pub open spec fn spec_logged(
    before: Seq<AuditLogEntry>,
    after: Seq<AuditLogEntry>,
    max: nat,
    event: spec_fn(AuditEvent) -> bool,
) -> bool {
    exists|e: AuditLogEntry| event(e.event) && after == #[trigger] spec_keep_last(before.push(e), max)
}

/// Default number of entries an audit log keeps.
pub const DEFAULT_MAX_ENTRIES: usize = 10000;

/// Audit logger: keeps the most recent `max_entries` events.
pub struct AuditLogger {
    logs: VecDeque<AuditLogEntry>,
    max_entries: usize,
}

impl AuditLogger {
    /// The entries kept, oldest first.
    pub closed spec fn entries(&self) -> Seq<AuditLogEntry> {
        self.logs@
    }

    /// How many entries the log keeps at most.
    pub closed spec fn spec_max_entries(&self) -> nat {
        self.max_entries as nat
    }

    /// Invariant: the log never holds more than its maximum.
    pub open spec fn wf(&self) -> bool {
        self.entries().len() <= self.spec_max_entries()
    }

    /// An empty log keeping up to 10000 entries.
    pub fn new() -> (l: Self)
        ensures
            l.wf(),
            l.entries() == Seq::<AuditLogEntry>::empty(),
            l.spec_max_entries() == DEFAULT_MAX_ENTRIES,
    {
        AuditLogger { logs: VecDeque::new(), max_entries: DEFAULT_MAX_ENTRIES }
    }

    /// An empty log keeping up to `max_entries` entries.
    pub fn with_max_entries(max_entries: usize) -> (l: Self)
        ensures
            l.wf(),
            l.entries() == Seq::<AuditLogEntry>::empty(),
            l.spec_max_entries() == max_entries,
    {
        AuditLogger { logs: VecDeque::new(), max_entries }
    }

    /// Appends `event` stamped `timestamp`, dropping the oldest entries
    /// beyond the maximum.
    pub fn log_at(&mut self, event: AuditEvent, timestamp: u64)
        ensures
            final(self).spec_max_entries() == old(self).spec_max_entries(),
            final(self).wf(),
            final(self).entries() == spec_keep_last(
                old(self).entries().push(AuditLogEntry { timestamp, event }),
                old(self).spec_max_entries(),
            ),
    {
        let ghost pushed = self.logs@.push(AuditLogEntry { timestamp, event });
        self.logs.push_back(AuditLogEntry { timestamp, event });
        while self.logs.len() > self.max_entries
            invariant
                self.max_entries == old(self).max_entries,
                pushed.len() >= self.logs@.len(),
                self.logs@.len() >= if pushed.len() > self.max_entries { self.max_entries as nat } else { pushed.len() },
                self.logs@ == pushed.subrange(pushed.len() - self.logs@.len(), pushed.len() as int),
            decreases self.logs@.len(),
        {
            let ghost before = self.logs@;
            self.logs.pop_front();
            assert(self.logs@ =~= pushed.subrange(pushed.len() - self.logs@.len(), pushed.len() as int));
        }
        proof {
            if pushed.len() <= self.max_entries {
                assert(self.logs@ =~= pushed);
            } else {
                assert(self.logs@.len() == self.max_entries);
            }
        }
    }

    /// Appends `event` stamped with the current time.
    pub fn log(&mut self, event: AuditEvent)
        ensures
            final(self).spec_max_entries() == old(self).spec_max_entries(),
            final(self).wf(),
            exists|timestamp: u64| final(self).entries() == #[trigger] spec_keep_last(
                old(self).entries().push(AuditLogEntry { timestamp, event }),
                old(self).spec_max_entries(),
            ),
    {
        let timestamp = unix_time_secs();
        self.log_at(event, timestamp);
    }

    /// The `count` most recent entries, newest first.
    pub fn get_recent(&self, count: usize) -> (r: Vec<AuditLogEntry>)
        ensures
            r@ == spec_recent(self.entries(), count as nat),
    {
        let n: usize = self.logs.len();
        let k: usize = if count < n { count } else { n };
        let mut out: Vec<AuditLogEntry> = Vec::new();
        let mut i: usize = 0;
        while i < k
            invariant
                n == self.entries().len(),
                k <= n,
                k == if count < n { count } else { n },
                i <= k,
                out@ == spec_recent(self.entries(), count as nat).subrange(0, i as int),
            decreases k - i,
        {
            let e = self.logs[n - 1 - i].duplicate();
            out.push(e);
            i = i + 1;
            assert(out@ =~= spec_recent(self.entries(), count as nat).subrange(0, i as int));
        }
        assert(out@ =~= spec_recent(self.entries(), count as nat));
        out
    }

    /// The entries about `user_id`, oldest first.
    pub fn get_user_logs(&self, user_id: &str) -> (r: Vec<AuditLogEntry>)
        ensures
            r@ == spec_user_entries(self.entries(), user_id@),
    {
        let wanted = user_id.to_owned();
        let n: usize = self.logs.len();
        let mut out: Vec<AuditLogEntry> = Vec::new();
        let mut i: usize = 0;
        while i < n
            invariant
                n == self.entries().len(),
                i <= n,
                wanted@ == user_id@,
                out@ == spec_user_entries(self.entries().take(i as int), user_id@),
            decreases n - i,
        {
            proof {
                assert(self.entries().take(i + 1).drop_last() =~= self.entries().take(i as int));
                assert(self.entries().take(i + 1).last() == self.entries()[i as int]);
            }
            let entry = &self.logs[i];
            if entry.event.concerns(&wanted) {
                out.push(entry.duplicate());
            }
            i = i + 1;
        }
        assert(self.entries().take(n as int) =~= self.entries());
        out
    }

    /// Number of entries kept.
    pub fn log_count(&self) -> (n: usize)
        ensures
            n == self.entries().len(),
    {
        self.logs.len()
    }

    /// Removes every entry.
    pub fn clear(&mut self)
        ensures
            final(self).entries() == Seq::<AuditLogEntry>::empty(),
            final(self).spec_max_entries() == old(self).spec_max_entries(),
            final(self).wf(),
    {
        self.logs.clear();
    }
}

impl Default for AuditLogger {
    fn default() -> (l: Self)
        ensures
            l.wf(),
            l.entries() == Seq::<AuditLogEntry>::empty(),
            l.spec_max_entries() == DEFAULT_MAX_ENTRIES,
    {
        Self::new()
    }
}

} // verus!
