//! Security and multi-tenancy: authentication, role-based access control,
//! encryption at rest, namespaces and audit logging.
pub mod audit;
pub mod auth;
pub mod encryption;
pub mod error;
pub mod namespace;
pub mod rbac;

use crate::security::audit::{spec_logged, AuditEvent, AuditLogEntry, AuditLogger};
use crate::security::auth::{
    jwt_hs256_claims, spec_authentication, spec_claims_of, spec_missing_claim, spec_user_creation, AuthManager, Claims, User,
};
use crate::security::encryption::{
    spec_decrypted, spec_encrypted, EncryptionManager, AES_GCM_MAX_INPUT, NONCE_LEN, TAG_LEN,
};
use crate::security::error::SecurityError;
use crate::security::namespace::NamespaceManager;
use crate::security::rbac::{spec_granted, spec_role_name, Permission, RbacManager, Role};
use vstd::prelude::*;

verus! {

/// Security manager: authentication, access control and encryption, with
/// every user creation, login and role change written to the audit log.
pub struct SecurityManager {
    auth: AuthManager,
    rbac: RbacManager,
    encryption: EncryptionManager,
    _namespace: NamespaceManager,
    audit: AuditLogger,
}

impl SecurityManager {
    /// The authentication part.
    pub closed spec fn spec_auth(&self) -> AuthManager {
        self.auth
    }

    /// The access-control part.
    pub closed spec fn spec_rbac(&self) -> RbacManager {
        self.rbac
    }

    /// The encryption key.
    pub closed spec fn spec_key(&self) -> Seq<u8> {
        self.encryption.spec_key()
    }

    /// The audit log's entries, oldest first.
    pub closed spec fn spec_audit(&self) -> Seq<AuditLogEntry> {
        self.audit.entries()
    }

    /// How many entries the audit log keeps.
    pub closed spec fn spec_audit_max(&self) -> nat {
        self.audit.spec_max_entries()
    }

    /// A manager with no users, no roles, an empty audit log and a fresh
    /// random encryption key; tokens are signed with `secret_key`. Fails when
    /// no encryption key can be drawn.
    pub fn new(secret_key: &str) -> (r: Result<Self, SecurityError>)
        ensures
            match r {
                Ok(m) => {
                    &&& m.spec_auth().spec_users().is_empty()
                    &&& m.spec_auth().spec_ids().is_empty()
                    &&& m.spec_auth().spec_secret() == secret_key@
                    &&& m.spec_rbac().spec_roles().is_empty()
                    &&& m.spec_key().len() == 32
                    &&& m.spec_audit() == Seq::<AuditLogEntry>::empty()
                    &&& m.spec_audit_max() == audit::DEFAULT_MAX_ENTRIES
                },
                Err(e) => (e matches SecurityError::EncryptionError(m) && m@ == "Failed to generate encryption key"@),
            },
    {
        let encryption = EncryptionManager::new()?;
        Ok(SecurityManager {
            auth: AuthManager::new(secret_key),
            rbac: RbacManager::new(),
            encryption,
            _namespace: NamespaceManager::new(),
            audit: AuditLogger::new(),
        })
    }

    /// Creates a user (see `AuthManager::create_user`) and logs the creation.
    pub fn create_user(&mut self, username: &str, password: &str, tenant: &str) -> (r: Result<User, SecurityError>)
        ensures
            spec_user_creation(old(self).spec_auth(), final(self).spec_auth(), username@, password@, tenant@, r),
            final(self).spec_rbac() == old(self).spec_rbac(),
            final(self).spec_key() == old(self).spec_key(),
            final(self).spec_audit_max() == old(self).spec_audit_max(),
            match r {
                Ok(u) => spec_logged(
                    old(self).spec_audit(),
                    final(self).spec_audit(),
                    old(self).spec_audit_max(),
                    |e: AuditEvent| e matches AuditEvent::UserCreated { user_id: i, username: n, tenant: t }
                        && i@ == u.id@ && n@ == username@ && t@ == tenant@,
                ),
                Err(_) => final(self).spec_audit() == old(self).spec_audit(),
            },
    {
        let user = match self.auth.create_user(username, password, tenant) {
            Ok(u) => u,
            Err(e) => {
                return Err(e);
            },
        };
        let event = AuditEvent::UserCreated {
            user_id: user.id.clone(),
            username: username.to_owned(),
            tenant: tenant.to_owned(),
        };
        let ghost before = self.audit.entries();
        let ghost ev = event;
        self.audit.log(event);
        proof {
            let ts = choose|timestamp: u64| self.audit.entries() == #[trigger] audit::spec_keep_last(
                before.push(AuditLogEntry { timestamp, event: ev }),
                old(self).audit.spec_max_entries(),
            );
            let entry = AuditLogEntry { timestamp: ts, event: ev };
            assert(self.audit.entries() == audit::spec_keep_last(before.push(entry), old(self).audit.spec_max_entries()));
        }
        Ok(user)
    }

    /// Authenticates a user (see `AuthManager::authenticate`) and logs a
    /// successful login.
    pub fn authenticate(&mut self, username: &str, password: &str) -> (r: Result<String, SecurityError>)
        ensures
            spec_authentication(old(self).spec_auth(), username@, password@, r),
            final(self).spec_auth() == old(self).spec_auth(),
            final(self).spec_rbac() == old(self).spec_rbac(),
            final(self).spec_key() == old(self).spec_key(),
            final(self).spec_audit_max() == old(self).spec_audit_max(),
            match r {
                Ok(_) => spec_logged(
                    old(self).spec_audit(),
                    final(self).spec_audit(),
                    old(self).spec_audit_max(),
                    |e: AuditEvent| e matches AuditEvent::UserAuthenticated { username: n } && n@ == username@,
                ),
                Err(_) => final(self).spec_audit() == old(self).spec_audit(),
            },
    {
        let token = match self.auth.authenticate(username, password) {
            Ok(t) => t,
            Err(e) => {
                return Err(e);
            },
        };
        let event = AuditEvent::UserAuthenticated { username: username.to_owned() };
        let ghost before = self.audit.entries();
        let ghost ev = event;
        self.audit.log(event);
        proof {
            let ts = choose|timestamp: u64| self.audit.entries() == #[trigger] audit::spec_keep_last(
                before.push(AuditLogEntry { timestamp, event: ev }),
                old(self).audit.spec_max_entries(),
            );
            let entry = AuditLogEntry { timestamp: ts, event: ev };
            assert(self.audit.entries() == audit::spec_keep_last(before.push(entry), old(self).audit.spec_max_entries()));
        }
        Ok(token)
    }

    /// Assigns `role` to `user_id` and logs the assignment with the role's
    /// name.
    pub fn assign_role(&mut self, user_id: &str, role: Role) -> (r: Result<(), SecurityError>)
        ensures
            r is Ok,
            final(self).spec_rbac().spec_roles() == old(self).spec_rbac().spec_roles().insert(user_id@, role),
            final(self).spec_rbac().spec_custom() == old(self).spec_rbac().spec_custom(),
            final(self).spec_auth() == old(self).spec_auth(),
            final(self).spec_key() == old(self).spec_key(),
            final(self).spec_audit_max() == old(self).spec_audit_max(),
            spec_logged(
                old(self).spec_audit(),
                final(self).spec_audit(),
                old(self).spec_audit_max(),
                |e: AuditEvent| e matches AuditEvent::RoleAssigned { user_id: i, role: n }
                    && i@ == user_id@ && n@ == spec_role_name(role),
            ),
    {
        let assigned = self.rbac.assign_role(user_id, role);
        match assigned {
            Ok(()) => {},
            Err(e) => {
                return Err(e);
            },
        }
        let event = AuditEvent::RoleAssigned { user_id: user_id.to_owned(), role: role.name() };
        let ghost before = self.audit.entries();
        let ghost ev = event;
        self.audit.log(event);
        proof {
            let ts = choose|timestamp: u64| self.audit.entries() == #[trigger] audit::spec_keep_last(
                before.push(AuditLogEntry { timestamp, event: ev }),
                old(self).audit.spec_max_entries(),
            );
            let entry = AuditLogEntry { timestamp: ts, event: ev };
            assert(self.audit.entries() == audit::spec_keep_last(before.push(entry), old(self).audit.spec_max_entries()));
        }
        Ok(())
    }

    /// Whether `user_id` holds `permission` (see
    /// `RbacManager::check_permission`).
    pub fn check_permission(&self, user_id: &str, permission: Permission, resource: &str) -> (r: Result<bool, SecurityError>)
        ensures
            match r {
                Ok(b) => self.spec_rbac().spec_roles().contains_key(user_id@) && b == spec_granted(
                    self.spec_rbac().spec_roles()[user_id@],
                    self.spec_rbac().spec_custom_of(user_id@),
                    permission,
                ),
                Err(SecurityError::UserNotFound(u)) => !self.spec_rbac().spec_roles().contains_key(user_id@) && u@ == user_id@,
                Err(_) => false,
            },
    {
        self.rbac.check_permission(user_id, permission, resource)
    }

    /// Encrypts `data` (see `EncryptionManager::encrypt`).
    pub fn encrypt(&self, data: &[u8]) -> (r: Result<Vec<u8>, SecurityError>)
        ensures
            match r {
                Ok(c) => {
                    &&& c@ == spec_encrypted(self.spec_key(), c@.take(NONCE_LEN as int), data@)
                    &&& c@.len() == NONCE_LEN + data@.len() + TAG_LEN
                    &&& spec_decrypted(self.spec_key(), c@) == Some(data@)
                },
                Err(SecurityError::EncryptionError(m)) => m@ == "Failed to generate nonce"@
                    || (data@.len() > AES_GCM_MAX_INPUT && m@ == "Encryption failed"@),
                Err(_) => false,
            },
    {
        self.encryption.encrypt(data)
    }

    /// Decrypts `data` (see `EncryptionManager::decrypt`).
    pub fn decrypt(&self, data: &[u8]) -> (r: Result<Vec<u8>, SecurityError>)
        ensures
            match spec_decrypted(self.spec_key(), data@) {
                Some(p) => (r matches Ok(v) && v@ == p),
                None => (r matches Err(SecurityError::EncryptionError(m)) && m@ == (if data@.len() < NONCE_LEN {
                    "Invalid encrypted data: too short"@
                } else {
                    "Decryption failed"@
                })),
            },
    {
        self.encryption.decrypt(data)
    }

    /// Checks a token and returns its claims (see `AuthManager::verify_token`).
    pub fn verify_token(&self, token: &str) -> (r: Result<Claims, SecurityError>)
        ensures
            match r {
                Ok(c) => jwt_hs256_claims(token@, self.spec_auth().spec_secret()) matches Some(j)
                    && spec_missing_claim(j) is None && spec_claims_of(j, c),
                Err(e) => e is InvalidToken,
            },
    {
        self.auth.verify_token(token)
    }
}

} // verus!
