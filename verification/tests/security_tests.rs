use agredadb::security::audit::{AuditEvent, AuditLogger};
use agredadb::security::auth::AuthManager;
use agredadb::security::encryption::{EncryptionManager, NONCE_LEN};
use agredadb::security::error::SecurityError;
use agredadb::security::namespace::{NamespaceManager, NamespaceQuota};
use agredadb::security::rbac::{Permission, RbacManager, Role};
use agredadb::security::SecurityManager;

#[test]
fn test_audit_logger() {
    let mut logger = AuditLogger::new();

    logger.log(AuditEvent::UserCreated {
        user_id: "user1".to_string(),
        username: "alice".to_string(),
        tenant: "tenant1".to_string(),
    });

    assert_eq!(logger.log_count(), 1);
}

#[test]
fn test_get_recent() {
    let mut logger = AuditLogger::new();

    for i in 0..5 {
        logger.log(AuditEvent::UserAuthenticated { username: format!("user{}", i) });
    }

    let recent = logger.get_recent(3);
    assert_eq!(recent.len(), 3);
}

#[test]
fn test_max_entries() {
    let mut logger = AuditLogger::with_max_entries(10);

    for i in 0..20 {
        logger.log(AuditEvent::UserAuthenticated { username: format!("user{}", i) });
    }

    assert_eq!(logger.log_count(), 10);
}

#[test]
fn test_get_user_logs() {
    let mut logger = AuditLogger::new();

    logger.log(AuditEvent::UserCreated {
        user_id: "user1".to_string(),
        username: "alice".to_string(),
        tenant: "tenant1".to_string(),
    });

    logger.log(AuditEvent::DataAccessed { user_id: "user1".to_string(), resource: "table1".to_string() });

    logger.log(AuditEvent::UserCreated {
        user_id: "user2".to_string(),
        username: "bob".to_string(),
        tenant: "tenant1".to_string(),
    });

    let user1_logs = logger.get_user_logs("user1");
    assert_eq!(user1_logs.len(), 2);
}

#[test]
fn audit_keeps_newest_and_returns_newest_first() {
    let mut logger = AuditLogger::with_max_entries(3);
    for i in 0..5u64 {
        logger.log_at(AuditEvent::UserAuthenticated { username: format!("u{}", i) }, i);
    }
    let recent = logger.get_recent(10);
    let stamps: Vec<u64> = recent.iter().map(|e| e.timestamp).collect();
    assert_eq!(stamps, vec![4, 3, 2]);
    logger.clear();
    assert_eq!(logger.log_count(), 0);
    let mut none = AuditLogger::with_max_entries(0);
    none.log_at(AuditEvent::UserAuthenticated { username: "x".to_string() }, 1);
    assert_eq!(none.log_count(), 0);
}

#[test]
fn test_create_user() {
    let mut auth = AuthManager::new("test_secret");

    let user = auth.create_user("alice", "password123", "tenant1").unwrap();

    assert_eq!(user.username, "alice");
    assert_eq!(user.tenant, "tenant1");
    assert_ne!(user.password_hash, "password123");
}

#[test]
fn test_authenticate() {
    let mut auth = AuthManager::new("test_secret");

    auth.create_user("bob", "secret456", "tenant1").unwrap();

    let token = auth.authenticate("bob", "secret456").unwrap();

    assert!(!token.is_empty());
}

#[test]
fn test_authenticate_wrong_password() {
    let mut auth = AuthManager::new("test_secret");

    auth.create_user("charlie", "correct", "tenant1").unwrap();

    let result = auth.authenticate("charlie", "wrong");
    assert!(result.is_err());
}

#[test]
fn test_verify_token() {
    let mut auth = AuthManager::new("test_secret");

    auth.create_user("dave", "password", "tenant1").unwrap();

    let token = auth.authenticate("dave", "password").unwrap();

    let claims = auth.verify_token(&token).unwrap();
    assert_eq!(claims.username, "dave");
    assert_eq!(claims.tenant, "tenant1");
}

#[test]
fn auth_errors() {
    let mut auth = AuthManager::new("k");
    assert!(matches!(auth.authenticate("nobody", "x"), Err(SecurityError::InvalidCredentials)));
    let user = auth.create_user("eve", "pw", "t").unwrap();
    assert_eq!(user.id.len(), 36);
    assert!(matches!(auth.authenticate("eve", "nope"), Err(SecurityError::InvalidCredentials)));
    assert!(matches!(
        auth.create_user("eve", "other", "t2"),
        Err(SecurityError::AuthenticationFailed(m)) if m == "User already exists"
    ));
    assert_eq!(auth.user_count(), 1);
    assert_eq!(auth.get_user(&user.id).unwrap().username, "eve");
    assert!(matches!(auth.get_user("missing"), Err(SecurityError::UserNotFound(m)) if m == "missing"));
    assert!(matches!(auth.verify_token("not.a.valid.token"), Err(SecurityError::InvalidToken(_))));
    let other = AuthManager::new("different secret");
    let token = auth.authenticate("eve", "pw").unwrap();
    assert!(matches!(other.verify_token(&token), Err(SecurityError::InvalidToken(_))));
    let claims = auth.verify_token(&token).unwrap();
    assert_eq!(claims.sub, user.id);
    assert_eq!(claims.exp, claims.iat + 3600);
}

#[test]
fn finish_authentication_outcomes() {
    let mut auth = AuthManager::new("secret");
    let user = auth.create_user("fay", "pw", "t").unwrap();
    assert!(matches!(
        auth.finish_authentication(&user, Err("bad hash".to_string()), 10),
        Err(SecurityError::EncryptionError(m)) if m == "bad hash"
    ));
    assert!(matches!(auth.finish_authentication(&user, Ok(false), 10), Err(SecurityError::InvalidCredentials)));
    let a = auth.finish_authentication(&user, Ok(true), 10).unwrap();
    let b = auth.finish_authentication(&user, Ok(true), 10).unwrap();
    assert_eq!(a, b);
}

#[test]
fn test_encrypt_decrypt() {
    let manager = EncryptionManager::new().unwrap();

    let data = b"sensitive data";
    let encrypted = manager.encrypt(data).unwrap();

    assert_ne!(&encrypted[..], &data[..]);
    assert_eq!(encrypted.len(), NONCE_LEN + data.len() + 16);

    let decrypted = manager.decrypt(&encrypted).unwrap();
    assert_eq!(decrypted, data);
}

#[test]
fn test_encrypt_decrypt_with_explicit_key() {
    let key = [42u8; 32];
    let manager = EncryptionManager::with_key(key);

    let data = b"secret message";
    let encrypted = manager.encrypt(data).unwrap();
    let decrypted = manager.decrypt(&encrypted).unwrap();
    assert_eq!(decrypted, data);
}

#[test]
fn test_different_manager_cannot_decrypt() {
    let manager1 = EncryptionManager::new().unwrap();
    let manager2 = EncryptionManager::new().unwrap();

    let data = b"sensitive data";
    let encrypted = manager1.encrypt(data).unwrap();

    let result = manager2.decrypt(&encrypted);
    assert!(result.is_err());
}

#[test]
fn test_encrypt_empty() {
    let manager = EncryptionManager::new().unwrap();

    let data = b"";
    let encrypted = manager.encrypt(data).unwrap();
    let decrypted = manager.decrypt(&encrypted).unwrap();

    assert_eq!(decrypted, data);
}

#[test]
fn test_decrypt_invalid() {
    let manager = EncryptionManager::new().unwrap();

    let invalid_data = b"short";
    let result = manager.decrypt(invalid_data);

    assert!(result.is_err());
}

#[test]
fn test_tampered_ciphertext_fails() {
    let manager = EncryptionManager::new().unwrap();

    let data = b"sensitive data";
    let mut encrypted = manager.encrypt(data).unwrap();

    if encrypted.len() > NONCE_LEN {
        encrypted[NONCE_LEN] ^= 0xFF;
    }

    let result = manager.decrypt(&encrypted);
    assert!(result.is_err());
}

#[test]
fn encryption_messages_and_fixed_nonce() {
    let manager = EncryptionManager::with_key([7u8; 32]);
    assert!(matches!(
        manager.decrypt(b"short"),
        Err(SecurityError::EncryptionError(m)) if m == "Invalid encrypted data: too short"
    ));
    assert!(matches!(
        manager.decrypt(&[0u8; 40]),
        Err(SecurityError::EncryptionError(m)) if m == "Decryption failed"
    ));
    assert!(matches!(
        manager.encrypt_with_nonce(None, b"x"),
        Err(SecurityError::EncryptionError(m)) if m == "Failed to generate nonce"
    ));
    let nonce = vec![1u8; 12];
    let a = manager.encrypt_with_nonce(Some(nonce.clone()), b"abc").unwrap();
    let b = manager.encrypt_with_nonce(Some(nonce.clone()), b"abc").unwrap();
    assert_eq!(a, b);
    assert_eq!(&a[..12], &nonce[..]);
    assert_ne!(&a[12..15], b"abc");
    assert_eq!(manager.decrypt(&a).unwrap(), b"abc".to_vec());
}

#[test]
fn test_security_manager() {
    let mut security = SecurityManager::new("test_secret").unwrap();

    let user = security.create_user("alice", "password123", "tenant1").unwrap();

    assert_eq!(user.username, "alice");
    assert_eq!(user.tenant, "tenant1");
}

#[test]
fn test_authentication_flow() {
    let mut security = SecurityManager::new("test_secret").unwrap();

    security.create_user("bob", "secret456", "tenant1").unwrap();

    let token = security.authenticate("bob", "secret456").unwrap();

    assert!(!token.is_empty());
}

#[test]
fn test_auth_create_authenticate_verify() {
    let mut security = SecurityManager::new("test_secret_key_for_integration").unwrap();

    let user = security.create_user("testuser", "testpass123", "tenant_a").unwrap();
    assert_eq!(user.username, "testuser");
    assert_eq!(user.tenant, "tenant_a");

    let token = security.authenticate("testuser", "testpass123").unwrap();
    assert!(!token.is_empty());

    let claims = security.verify_token(&token).unwrap();
    assert_eq!(claims.username, "testuser");
    assert_eq!(claims.tenant, "tenant_a");
    assert_eq!(claims.sub, user.id);

    let result = security.authenticate("testuser", "wrong_password");
    assert!(result.is_err(), "Wrong password should fail");

    let result = security.verify_token("not.a.valid.token");
    assert!(result.is_err(), "Invalid token should fail");

    let result = security.create_user("testuser", "otherpass", "tenant_b");
    assert!(result.is_err(), "Duplicate username should fail");
}

#[test]
fn security_manager_roles_and_crypto() {
    let mut security = SecurityManager::new("s").unwrap();
    let user = security.create_user("ann", "pw", "t").unwrap();
    assert!(matches!(
        security.check_permission(&user.id, Permission::Read, "table1"),
        Err(SecurityError::UserNotFound(_))
    ));
    security.assign_role(&user.id, Role::ReadWrite).unwrap();
    assert_eq!(security.check_permission(&user.id, Permission::Write, "table1").unwrap(), true);
    assert_eq!(security.check_permission(&user.id, Permission::Delete, "table1").unwrap(), false);
    let sealed = security.encrypt(b"payload").unwrap();
    assert_eq!(security.decrypt(&sealed).unwrap(), b"payload".to_vec());
}

#[test]
fn test_namespace_quota() {
    let quota = NamespaceQuota::new(1024 * 1024, 10);

    assert!(quota.can_allocate(512 * 1024));
    assert!(quota.can_create_table());
    assert_eq!((quota.current_storage as f64 / quota.max_storage as f64) * 100.0, 0.0);
}

#[test]
fn test_create_namespace() {
    let mut manager = NamespaceManager::new();

    let ns = manager.create_namespace("tenant1", 1024 * 1024, 10).unwrap();

    assert_eq!(ns.name, "tenant1");
    assert_eq!(manager.namespace_count(), 1);
}

#[test]
fn test_assign_user_to_namespace() {
    let mut manager = NamespaceManager::new();

    let ns = manager.create_namespace("tenant1", 1024 * 1024, 10).unwrap();
    manager.assign_user_to_namespace("user1", &ns.id).unwrap();

    let user_ns = manager.get_user_namespace("user1").unwrap();
    assert_eq!(user_ns.id, ns.id);
}

#[test]
fn test_update_storage_usage() {
    let mut manager = NamespaceManager::new();

    let ns = manager.create_namespace("tenant1", 1024 * 1024, 10).unwrap();

    manager.update_storage_usage(&ns.id, 512 * 1024).unwrap();

    let updated_ns = manager.get_namespace(&ns.id).unwrap();
    assert_eq!(updated_ns.quota.current_storage, 512 * 1024);
}

#[test]
fn namespace_errors_and_saturation() {
    let mut manager = NamespaceManager::new();
    assert!(matches!(
        manager.assign_user_to_namespace("u", "nope"),
        Err(SecurityError::NamespaceError(m)) if m == "Namespace not found"
    ));
    assert!(matches!(
        manager.get_user_namespace("u"),
        Err(SecurityError::NamespaceError(m)) if m == "User not assigned to namespace"
    ));
    assert!(matches!(manager.update_storage_usage("nope", 1), Err(SecurityError::NamespaceError(_))));
    let ns = manager.create_namespace("t", 100, 0).unwrap();
    assert!(!ns.quota.can_create_table());
    assert!(!ns.quota.can_allocate(101));
    manager.update_storage_usage(&ns.id, 10).unwrap();
    manager.update_storage_usage(&ns.id, -50).unwrap();
    assert_eq!(manager.get_namespace(&ns.id).unwrap().quota.current_storage, 0);
}

#[test]
fn test_role_permissions() {
    assert_eq!(Role::Admin.permissions().len(), 4);
    assert_eq!(Role::ReadWrite.permissions().len(), 2);
    assert_eq!(Role::ReadOnly.permissions().len(), 1);
}

#[test]
fn test_assign_role() {
    let mut rbac = RbacManager::new();

    rbac.assign_role("user1", Role::Admin).unwrap();

    let role = rbac.get_role("user1").unwrap();
    assert_eq!(role, Role::Admin);
}

#[test]
fn test_check_permission() {
    let mut rbac = RbacManager::new();

    rbac.assign_role("user1", Role::ReadOnly).unwrap();

    let can_read = rbac.check_permission("user1", Permission::Read, "table1").unwrap();
    assert!(can_read);

    let can_write = rbac.check_permission("user1", Permission::Write, "table1").unwrap();
    assert!(!can_write);
}

#[test]
fn test_custom_permissions() {
    let mut rbac = RbacManager::new();

    rbac.assign_role("user1", Role::Custom).unwrap();
    rbac.add_custom_permission("user1", Permission::Read);

    let can_read = rbac.check_permission("user1", Permission::Read, "table1").unwrap();
    assert!(can_read);
}

#[test]
fn rbac_roles_and_names() {
    let mut rbac = RbacManager::new();
    assert!(rbac.get_role("x").is_none());
    assert!(matches!(rbac.check_permission("x", Permission::Read, "r"), Err(SecurityError::UserNotFound(m)) if m == "x"));
    rbac.assign_role("x", Role::Custom).unwrap();
    assert!(!rbac.check_permission("x", Permission::Admin, "r").unwrap());
    rbac.assign_role("x", Role::Admin).unwrap();
    assert!(rbac.check_permission("x", Permission::Admin, "r").unwrap());
    assert_eq!(Role::Custom.permissions().len(), 0);
    assert_eq!(Role::ReadWrite.name(), "ReadWrite");
    assert_eq!(SecurityError::InvalidCredentials.message(), "Invalid credentials");
    assert_eq!(SecurityError::UserNotFound("bob".to_string()).message(), "User not found: bob");
}

#[test]
fn claims_from_json_members_and_missing() {
    let c = AuthManager::claims_from_json(
        "{\"sub\":\"id1\",\"username\":\"u\",\"tenant\":\"t\",\"exp\":20,\"iat\":10}",
    )
    .unwrap();
    assert_eq!(c.sub, "id1");
    assert_eq!(c.username, "u");
    assert_eq!(c.tenant, "t");
    assert_eq!((c.exp, c.iat), (20, 10));
    assert!(matches!(
        AuthManager::claims_from_json("{\"sub\":\"id1\",\"tenant\":\"t\",\"exp\":1,\"iat\":1}"),
        Err(SecurityError::InvalidToken(m)) if m == "JSON error: missing field `username`"
    ));
    assert!(matches!(
        AuthManager::claims_from_json("{\"sub\":\"a\",\"username\":\"u\",\"tenant\":\"t\",\"exp\":\"x\",\"iat\":1}"),
        Err(SecurityError::InvalidToken(m)) if m == "JSON error: missing field `exp`"
    ));
}

#[test]
fn claims_from_json_reads_each_member() {
    let c = AuthManager::claims_from_json(
        "{\"sub\":\"id1\",\"username\":\"u\",\"tenant\":\"t\",\"exp\":3700,\"iat\":100}",
    )
    .unwrap();
    assert_eq!(c.sub, "id1");
    assert_eq!(c.username, "u");
    assert_eq!(c.tenant, "t");
    assert_eq!(c.exp, 3700);
    assert_eq!(c.iat, 100);
    assert!(matches!(
        AuthManager::claims_from_json("{\"sub\":\"id1\",\"username\":\"u\",\"exp\":1,\"iat\":0}"),
        Err(SecurityError::InvalidToken(m)) if m == "JSON error: missing field `tenant`"
    ));
}

#[test]
fn issued_token_verifies_to_user_claims() {
    let mut auth = AuthManager::new("s3cret");
    let user = auth.create_user("gil", "pw", "acme").unwrap();
    let token = auth.authenticate("gil", "pw").unwrap();
    let claims = auth.verify_token(&token).unwrap();
    assert_eq!(claims.sub, user.id);
    assert_eq!(claims.username, "gil");
    assert_eq!(claims.tenant, "acme");
    assert_eq!(claims.exp, claims.iat + 3600);
}

#[test]
fn unreadable_stored_hash_is_encryption_error() {
    let mut auth = AuthManager::new("k");
    auth.register_user("hal", "t", Ok("not a bcrypt hash".to_string()), "id-1".to_string(), 5).unwrap();
    assert!(matches!(auth.authenticate("hal", "pw"), Err(SecurityError::EncryptionError(_))));
}

#[test]
fn generated_ids_are_uuid_text() {
    let mut auth = AuthManager::new("k");
    let a = auth.create_user("u1", "pw", "t").unwrap();
    let b = auth.create_user("u2", "pw", "t").unwrap();
    assert_eq!(a.id.len(), 36);
    assert_ne!(a.id, b.id);
    assert_eq!(a.id.as_bytes()[14], b'4');
    for i in [8, 13, 18, 23] {
        assert_eq!(a.id.as_bytes()[i], b'-');
    }
    assert!(a.id.chars().all(|c| c == '-' || c.is_ascii_digit() || ('a'..='f').contains(&c)));
    assert!(matches!(a.id.as_bytes()[19], b'8' | b'9' | b'a' | b'b'));
    let mut ns = NamespaceManager::new();
    let n = ns.create_namespace("space", 10, 2).unwrap();
    assert_eq!(n.id.len(), 36);
}
