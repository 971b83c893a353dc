//! Authentication: users, password hashes and signed session tokens.
use crate::platform::{new_uuid_string, unix_time_secs};
use crate::security::error::SecurityError;
use crate::server::gateway::{json_member, json_member_text};
use vstd::hash_map::StringHashMap;
use vstd::prelude::*;
use vstd::string::StringExecFns;

verus! {

/// Seconds a token stays valid after it is issued.
pub const TOKEN_LIFETIME_SECS: u64 = 3600;

/// User
#[derive(Debug)]
pub struct User {
    pub id: String,
    pub username: String,
    pub password_hash: String,
    pub tenant: String,
    pub created_at: u64,
}

impl User {
    /// A copy of the user.
    pub fn duplicate(&self) -> (u: Self)
        ensures
            u == *self,
    {
        User {
            id: self.id.clone(),
            username: self.username.clone(),
            password_hash: self.password_hash.clone(),
            tenant: self.tenant.clone(),
            created_at: self.created_at,
        }
    }
}

/// Credentials
#[derive(Debug)]
pub struct Credentials {
    pub username: String,
    pub password: String,
}

/// Token claims
#[derive(Debug)]
pub struct Claims {
    /// User id
    pub sub: String,
    pub username: String,
    pub tenant: String,
    /// Expiration time (seconds since the epoch)
    pub exp: u64,
    /// Issue time (seconds since the epoch)
    pub iat: u64,
}

/// What `bcrypt::verify` answers for `password` against `hash`: whether they
/// match, or `None` when the hash is malformed.
pub uninterp spec fn bcrypt_verifies(password: Seq<char>, hash: Seq<char>) -> Option<bool>;

/// The token `jsonwebtoken::encode` produces for these claims with the
/// default header (HS256) and `secret` as the HMAC key.
pub uninterp spec fn jwt_hs256_token(
    sub: Seq<char>,
    username: Seq<char>,
    tenant: Seq<char>,
    exp: u64,
    iat: u64,
    secret: Seq<char>,
) -> Seq<char>;

/// The claims object carried by `token` (as JSON text, written by
/// `serde_json`) when the token is well formed, its header names HS256 and
/// its HS256 signature checks under `secret`; `None` otherwise.
pub uninterp spec fn jwt_hs256_claims(token: Seq<char>, secret: Seq<char>) -> Option<Seq<char>>;

/// Whether `token`, checked under `secret`, carries a claims object whose
/// members are these values.
pub open spec fn spec_carries_claims(
    token: Seq<char>,
    secret: Seq<char>,
    sub: Seq<char>,
    username: Seq<char>,
    tenant: Seq<char>,
    exp: u64,
    iat: u64,
) -> bool {
    &&& jwt_hs256_claims(token, secret) is Some
    &&& json_member_text(jwt_hs256_claims(token, secret)->0, "sub"@) == Some(sub)
    &&& json_member_text(jwt_hs256_claims(token, secret)->0, "username"@) == Some(username)
    &&& json_member_text(jwt_hs256_claims(token, secret)->0, "tenant"@) == Some(tenant)
    &&& json_member_number(jwt_hs256_claims(token, secret)->0, "exp"@) == Some(exp)
    &&& json_member_number(jwt_hs256_claims(token, secret)->0, "iat"@) == Some(iat)
}

/// `bcrypt::hash(password, DEFAULT_COST)`. The salt is random, so the hash is
/// not named; what the bcrypt source shows is that `verify` accepts the same
/// password against it.
#[verifier::external_body]
fn hash_password(password: &str) -> (r: Result<String, String>)
    ensures
        r matches Ok(h) ==> bcrypt_verifies(password@, h@) == Some(true),
{
    match bcrypt::hash(password, bcrypt::DEFAULT_COST) {
        Ok(h) => Ok(h),
        Err(e) => Err(e.to_string()),
    }
}

/// `bcrypt::verify(password, hash)`, its error turned into its text.
#[verifier::external_body]
fn verify_password(password: &str, hash: &str) -> (r: Result<bool, String>)
    ensures
        match r {
            Ok(b) => bcrypt_verifies(password@, hash@) == Some(b),
            Err(_) => bcrypt_verifies(password@, hash@) is None,
        },
{
    match bcrypt::verify(password, hash) {
        Ok(b) => Ok(b),
        Err(e) => Err(e.to_string()),
    }
}

/// `jsonwebtoken::encode` of the claims object
/// `{sub, username, tenant, exp, iat}` with `Header::default()` and
/// `EncodingKey::from_secret(secret)`. As the jsonwebtoken source shows,
/// HS256 signing with a secret key never fails, and `decode` under the same
/// secret finds the signature good and gives these claims back.
#[verifier::external_body]
fn encode_token(sub: &str, username: &str, tenant: &str, exp: u64, iat: u64, secret: &str) -> (r: Result<String, String>)
    ensures
        r is Ok,
        r matches Ok(t) ==> jwt_hs256_token(sub@, username@, tenant@, exp, iat, secret@) == t@,
        r matches Ok(t) ==> spec_carries_claims(t@, secret@, sub@, username@, tenant@, exp, iat),
{
    let mut claims = serde_json::Map::new();
    claims.insert("sub".to_string(), serde_json::Value::from(sub));
    claims.insert("username".to_string(), serde_json::Value::from(username));
    claims.insert("tenant".to_string(), serde_json::Value::from(tenant));
    claims.insert("exp".to_string(), serde_json::Value::from(exp));
    claims.insert("iat".to_string(), serde_json::Value::from(iat));
    let key = jsonwebtoken::EncodingKey::from_secret(secret.as_bytes());
    match jsonwebtoken::encode(&jsonwebtoken::Header::default(), &claims, &key) {
        Ok(t) => Ok(t),
        Err(e) => Err(e.to_string()),
    }
}

/// `jsonwebtoken::decode` with `DecodingKey::from_secret(secret)` and
/// `Validation::default()` (HS256, expiry checked against the clock), its
/// claims object returned as JSON text (`Value`'s `Display`). Success means
/// the signature checked, so the text is the token's claims; whether it
/// succeeds also depends on the clock, which is not stated.
#[verifier::external_body]
fn decode_token(token: &str, secret: &str) -> (r: Result<String, String>)
    ensures
        r matches Ok(j) ==> jwt_hs256_claims(token@, secret@) == Some(j@),
{
    let key = jsonwebtoken::DecodingKey::from_secret(secret.as_bytes());
    match jsonwebtoken::decode::<serde_json::Value>(token, &key, &jsonwebtoken::Validation::default()) {
        Ok(data) => Ok(data.claims.to_string()),
        Err(e) => Err(e.to_string()),
    }
}

/// The unsigned integer value of member `key` of the JSON object `json`;
/// `None` when `json` does not parse, is not an object, lacks the member, or
/// the member is not an unsigned integer.
pub uninterp spec fn json_member_number(json: Seq<char>, key: Seq<char>) -> Option<u64>;

/// `serde_json::from_str` of `json`, then `get(key)` and `as_u64`.
#[verifier::external_body]
fn json_member_u64(json: &str, key: &str) -> (r: Option<u64>)
    ensures
        r == json_member_number(json@, key@),
{
    match serde_json::from_str::<serde_json::Value>(json) {
        Ok(v) => match v.get(key) {
            Some(n) => n.as_u64(),
            None => None,
        },
        Err(_) => None,
    }
}

/// Whether `c` holds the members of the claims object `json`.
pub open spec fn spec_claims_of(json: Seq<char>, c: Claims) -> bool {
    &&& json_member_text(json, "sub"@) == Some(c.sub@)
    &&& json_member_text(json, "username"@) == Some(c.username@)
    &&& json_member_text(json, "tenant"@) == Some(c.tenant@)
    &&& json_member_number(json, "exp"@) == Some(c.exp)
    &&& json_member_number(json, "iat"@) == Some(c.iat)
}

/// The first claim, in the order sub, username, tenant, exp, iat, that the
/// claims object `json` lacks (or holds with the wrong type).
pub open spec fn spec_missing_claim(json: Seq<char>) -> Option<Seq<char>> {
    if json_member_text(json, "sub"@) is None {
        Some("sub"@)
    } else if json_member_text(json, "username"@) is None {
        Some("username"@)
    } else if json_member_text(json, "tenant"@) is None {
        Some("tenant"@)
    } else if json_member_number(json, "exp"@) is None {
        Some("exp"@)
    } else if json_member_number(json, "iat"@) is None {
        Some("iat"@)
    } else {
        None
    }
}

fn missing_claim(name: &str) -> (e: SecurityError)
    ensures
        e matches SecurityError::InvalidToken(m) && m@ == "JSON error: missing field `"@ + name@ + "`"@,
{
    let mut m = "JSON error: missing field `".to_owned();
    m.append(name);
    m.append("`");
    SecurityError::InvalidToken(m)
}

/// The token issued to `user` at time `now` (seconds), valid for
/// `TOKEN_LIFETIME_SECS`, signed with `secret`.
pub open spec fn spec_issued_token(user: User, now: u64, secret: Seq<char>) -> Seq<char> {
    jwt_hs256_token(user.id@, user.username@, user.tenant@, (now + TOKEN_LIFETIME_SECS) as u64, now, secret)
}

/// Whether `token` is the token issued to `user` at time `now` under
/// `secret`: it carries the user's id, name and tenant, `now` as its issue
/// time and `now + TOKEN_LIFETIME_SECS` as its expiry.
pub open spec fn spec_token_for(user: User, now: u64, secret: Seq<char>, token: Seq<char>) -> bool {
    &&& now + TOKEN_LIFETIME_SECS <= u64::MAX
    &&& token == spec_issued_token(user, now, secret)
    &&& spec_carries_claims(token, secret, user.id@, user.username@, user.tenant@, (now + TOKEN_LIFETIME_SECS) as u64, now)
}

/// Authentication manager
pub struct AuthManager {
    users: StringHashMap<User>,
    username_to_id: StringHashMap<String>,
    secret_key: String,
}

/// Whether `password` is accepted for `username` given the users by id and
/// the ids by username.
pub open spec fn spec_accepts(
    users: Map<Seq<char>, User>,
    ids: Map<Seq<char>, Seq<char>>,
    username: Seq<char>,
    password: Seq<char>,
) -> bool {
    &&& ids.contains_key(username)
    &&& users.contains_key(ids[username])
    &&& bcrypt_verifies(password, users[ids[username]].password_hash@) == Some(true)
}

impl AuthManager {
    /// Users by id.
    pub closed spec fn spec_users(&self) -> Map<Seq<char>, User> {
        self.users@
    }

    /// User ids by username.
    pub closed spec fn spec_ids(&self) -> Map<Seq<char>, Seq<char>> {
        Map::new(|u: Seq<char>| self.username_to_id@.contains_key(u), |u: Seq<char>| self.username_to_id@[u]@)
    }

    /// The key tokens are signed with.
    pub closed spec fn spec_secret(&self) -> Seq<char> {
        self.secret_key@
    }

    /// A manager with no users, signing tokens with `secret_key`.
    pub fn new(secret_key: &str) -> (m: Self)
        ensures
            m.spec_users() == Map::<Seq<char>, User>::empty(),
            m.spec_ids() == Map::<Seq<char>, Seq<char>>::empty(),
            m.spec_secret() == secret_key@,
    {
        let m = AuthManager {
            users: StringHashMap::new(),
            username_to_id: StringHashMap::new(),
            secret_key: secret_key.to_owned(),
        };
        assert(m.spec_ids() =~= Map::<Seq<char>, Seq<char>>::empty());
        m
    }

    /// Stores a new user whose password was hashed to `hashed`, under
    /// identifier `id`, created at `now`; a failed hash is an encryption error.
    pub fn register_user(
        &mut self,
        username: &str,
        tenant: &str,
        hashed: Result<String, String>,
        id: String,
        now: u64,
    ) -> (r: Result<User, SecurityError>)
        ensures
            final(self).spec_secret() == old(self).spec_secret(),
            match hashed {
                Ok(h) => r matches Ok(u) && u == (User { id, username: u.username, password_hash: h, tenant: u.tenant, created_at: now })
                    && u.username@ == username@ && u.tenant@ == tenant@
                    && final(self).spec_users() == old(self).spec_users().insert(id@, u)
                    && final(self).spec_ids() == old(self).spec_ids().insert(username@, id@),
                Err(msg) => r matches Err(SecurityError::EncryptionError(m)) && m == msg
                    && final(self).spec_users() == old(self).spec_users()
                    && final(self).spec_ids() == old(self).spec_ids(),
            },
    {
        let password_hash = match hashed {
            Ok(h) => h,
            Err(msg) => {
                return Err(SecurityError::EncryptionError(msg));
            },
        };
        let user = User {
            id: id.clone(),
            username: username.to_owned(),
            password_hash,
            tenant: tenant.to_owned(),
            created_at: now,
        };
        let stored = user.duplicate();
        self.users.insert(id.clone(), stored);
        let ghost before = self.spec_ids();
        self.username_to_id.insert(username.to_owned(), id);
        assert(self.spec_ids() =~= before.insert(username@, user.id@));
        Ok(user)
    }

    /// Creates a user with a bcrypt hash of `password` and a fresh random id.
    /// An existing username is refused.
    pub fn create_user(&mut self, username: &str, password: &str, tenant: &str) -> (r: Result<User, SecurityError>)
        ensures
            spec_user_creation(*old(self), *final(self), username@, password@, tenant@, r),
    {
        if self.username_to_id.contains_key(username) {
            return Err(SecurityError::AuthenticationFailed("User already exists".to_owned()));
        }
        let hashed = hash_password(password);
        let id = match new_uuid_string() {
            Some(id) => id,
            None => {
                return Err(SecurityError::EncryptionError("Failed to generate user id".to_owned()));
            },
        };
        let now = unix_time_secs();
        self.register_user(username, tenant, hashed, id, now)
    }

    /// Issues a token for `user` at time `now` once the password check gave
    /// `verified`: a failed check is an encryption error, a mismatch is
    /// invalid credentials.
    pub fn finish_authentication(&self, user: &User, verified: Result<bool, String>, now: u64) -> (r: Result<String, SecurityError>)
        requires
            now + TOKEN_LIFETIME_SECS <= u64::MAX,
        ensures
            match verified {
                Err(msg) => (r matches Err(SecurityError::EncryptionError(m)) && m == msg),
                Ok(false) => r matches Err(SecurityError::InvalidCredentials),
                Ok(true) => (r matches Ok(tok) && spec_token_for(*user, now, self.spec_secret(), tok@)),
            },
    {
        let valid = match verified {
            Ok(v) => v,
            Err(msg) => {
                return Err(SecurityError::EncryptionError(msg));
            },
        };
        if !valid {
            return Err(SecurityError::InvalidCredentials);
        }
        match encode_token(
            user.id.as_str(),
            user.username.as_str(),
            user.tenant.as_str(),
            now + TOKEN_LIFETIME_SECS,
            now,
            self.secret_key.as_str(),
        ) {
            Ok(t) => Ok(t),
            Err(msg) => Err(SecurityError::InvalidToken(msg)),
        }
    }

    /// Checks `password` for `username` and returns a token valid for an hour.
    pub fn authenticate(&self, username: &str, password: &str) -> (r: Result<String, SecurityError>)
        ensures
            spec_authentication(*self, username@, password@, r),
    {
        let user_id = match self.username_to_id.get(username) {
            Some(id) => id,
            None => {
                return Err(SecurityError::InvalidCredentials);
            },
        };
        let user = match self.users.get(user_id.as_str()) {
            Some(u) => u,
            None => {
                return Err(SecurityError::UserNotFound(username.to_owned()));
            },
        };
        let verified = verify_password(password, user.password_hash.as_str());
        let now = unix_time_secs();
        let r = self.finish_authentication(user, verified, now);
        r
    }

    /// The claims held by the claims object `json`; a missing (or mistyped)
    /// claim is an invalid token.
    pub fn claims_from_json(json: &str) -> (r: Result<Claims, SecurityError>)
        ensures
            match spec_missing_claim(json@) {
                None => (r matches Ok(c) && spec_claims_of(json@, c)),
                Some(name) => (r matches Err(SecurityError::InvalidToken(m))
                    && m@ == "JSON error: missing field `"@ + name + "`"@),
            },
    {
        let sub = match json_member(json, "sub") {
            Some(s) => s,
            None => { return Err(missing_claim("sub")); },
        };
        let username = match json_member(json, "username") {
            Some(s) => s,
            None => { return Err(missing_claim("username")); },
        };
        let tenant = match json_member(json, "tenant") {
            Some(s) => s,
            None => { return Err(missing_claim("tenant")); },
        };
        let exp = match json_member_u64(json, "exp") {
            Some(n) => n,
            None => { return Err(missing_claim("exp")); },
        };
        let iat = match json_member_u64(json, "iat") {
            Some(n) => n,
            None => { return Err(missing_claim("iat")); },
        };
        Ok(Claims { sub, username, tenant, exp, iat })
    }

    /// Checks a token's signature and expiry and returns its claims: on
    /// success, the members of the claims object the token carries under
    /// this manager's secret.
    pub fn verify_token(&self, token: &str) -> (r: Result<Claims, SecurityError>)
        ensures
            match r {
                Ok(c) => jwt_hs256_claims(token@, self.spec_secret()) matches Some(j)
                    && spec_missing_claim(j) is None && spec_claims_of(j, c),
                Err(e) => e is InvalidToken,
            },
    {
        let json = match decode_token(token, self.secret_key.as_str()) {
            Ok(j) => j,
            Err(msg) => {
                return Err(SecurityError::InvalidToken(msg));
            },
        };
        AuthManager::claims_from_json(json.as_str())
    }

    /// The user with id `user_id`.
    pub fn get_user(&self, user_id: &str) -> (r: Result<User, SecurityError>)
        ensures
            match r {
                Ok(u) => self.spec_users().contains_key(user_id@) && u == self.spec_users()[user_id@],
                Err(SecurityError::UserNotFound(m)) => !self.spec_users().contains_key(user_id@) && m@ == user_id@,
                Err(_) => false,
            },
    {
        match self.users.get(user_id) {
            Some(u) => Ok(u.duplicate()),
            None => Err(SecurityError::UserNotFound(user_id.to_owned())),
        }
    }

    /// Number of users.
    pub fn user_count(&self) -> (n: usize)
        ensures
            n == self.spec_users().len(),
    {
        self.users.len()
    }
}

/// What `create_user(username, password, tenant)` does to the manager `before`,
/// leaving `after` and answering `r`: a new username gets a user with a
/// 36-character id whose stored hash accepts `password`; a taken one is
/// refused; a failed hash is an encryption error. Nothing changes on error.
pub open spec fn spec_user_creation(
    before: AuthManager,
    after: AuthManager,
    username: Seq<char>,
    password: Seq<char>,
    tenant: Seq<char>,
    r: Result<User, SecurityError>,
) -> bool {
    &&& after.spec_secret() == before.spec_secret()
    &&& match r {
        Ok(u) => {
            &&& !before.spec_ids().contains_key(username)
            &&& u.username@ == username
            &&& u.tenant@ == tenant
            &&& u.id@.len() == 36
            &&& bcrypt_verifies(password, u.password_hash@) == Some(true)
            &&& after.spec_users() == before.spec_users().insert(u.id@, u)
            &&& after.spec_ids() == before.spec_ids().insert(username, u.id@)
            &&& spec_accepts(after.spec_users(), after.spec_ids(), username, password)
        },
        Err(SecurityError::AuthenticationFailed(m)) => {
            &&& before.spec_ids().contains_key(username)
            &&& m@ == "User already exists"@
            &&& after.spec_users() == before.spec_users()
            &&& after.spec_ids() == before.spec_ids()
        },
        Err(SecurityError::EncryptionError(_)) => {
            &&& !before.spec_ids().contains_key(username)
            &&& after.spec_users() == before.spec_users()
            &&& after.spec_ids() == before.spec_ids()
        },
        Err(_) => false,
    }
}

/// What `authenticate(username, password)` answers on `auth`: an unknown
/// username is invalid credentials, a username whose user is gone is
/// user-not-found, a wrong password is invalid credentials, a stored hash
/// that bcrypt cannot read is an encryption error, and an accepted
/// password, and only that, gets the token issued to the user at some issue
/// time.
pub open spec fn spec_authentication(
    auth: AuthManager,
    username: Seq<char>,
    password: Seq<char>,
    r: Result<String, SecurityError>,
) -> bool {
    &&& !auth.spec_ids().contains_key(username) ==> (r matches Err(SecurityError::InvalidCredentials))
    &&& auth.spec_ids().contains_key(username) && !auth.spec_users().contains_key(auth.spec_ids()[username])
        ==> (r matches Err(SecurityError::UserNotFound(u)) && u@ == username)
    &&& r is Ok ==> spec_accepts(auth.spec_users(), auth.spec_ids(), username, password)
    &&& spec_accepts(auth.spec_users(), auth.spec_ids(), username, password) ==> (r matches Ok(t)
        && exists|now: u64| #[trigger] spec_token_for(auth.spec_users()[auth.spec_ids()[username]], now, auth.spec_secret(), t@))
    &&& auth.spec_ids().contains_key(username) && auth.spec_users().contains_key(auth.spec_ids()[username])
        && bcrypt_verifies(password, auth.spec_users()[auth.spec_ids()[username]].password_hash@) == Some(false)
        ==> (r matches Err(SecurityError::InvalidCredentials))
    &&& auth.spec_ids().contains_key(username) && auth.spec_users().contains_key(auth.spec_ids()[username])
        && bcrypt_verifies(password, auth.spec_users()[auth.spec_ids()[username]].password_hash@) is None
        ==> (r matches Err(SecurityError::EncryptionError(_)))
}


/// A user who was just created can log in with the password they were
/// created with, and gets the token issued to them.
pub proof fn lemma_created_user_can_log_in(
    before: AuthManager,
    after: AuthManager,
    username: Seq<char>,
    password: Seq<char>,
    tenant: Seq<char>,
    user: User,
    r: Result<String, SecurityError>,
)
    requires
        spec_user_creation(before, after, username, password, tenant, Ok(user)),
        spec_authentication(after, username, password, r),
    ensures
        r matches Ok(t) && exists|now: u64| #[trigger] spec_token_for(user, now, after.spec_secret(), t@),
{
    assert(after.spec_ids()[username] == user.id@);
    assert(after.spec_users()[user.id@] == user);
}

/// A token issued at login verifies back to the claims of the user who
/// logged in: their id, name and tenant, valid for `TOKEN_LIFETIME_SECS`
/// from its issue time.
pub proof fn lemma_issued_token_verifies(
    auth: AuthManager,
    username: Seq<char>,
    password: Seq<char>,
    token: String,
    claims: Claims,
)
    requires
        spec_authentication(auth, username, password, Ok(token)),
        jwt_hs256_claims(token@, auth.spec_secret()) matches Some(j) && spec_claims_of(j, claims),
    ensures
        claims.sub@ == auth.spec_users()[auth.spec_ids()[username]].id@,
        claims.username@ == auth.spec_users()[auth.spec_ids()[username]].username@,
        claims.tenant@ == auth.spec_users()[auth.spec_ids()[username]].tenant@,
        claims.exp == claims.iat + TOKEN_LIFETIME_SECS,
{
    let user = auth.spec_users()[auth.spec_ids()[username]];
    let now = choose|now: u64| #[trigger] spec_token_for(user, now, auth.spec_secret(), token@);
    assert(spec_token_for(user, now, auth.spec_secret(), token@));
}

} // verus!
