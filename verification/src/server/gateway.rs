//! The request gateway's rules: reading the bearer token, the replies to
//! login and sign-up, routing keys to shards, tagging and filtering records
//! by tenant, and cleaning and chunking blobs.
use crate::security::audit::{spec_logged, AuditEvent, AuditLogEntry};
use crate::security::auth::{
    jwt_hs256_claims, lemma_created_user_can_log_in, spec_authentication, spec_claims_of, spec_missing_claim,
    spec_token_for, spec_user_creation, Claims, User,
};
use crate::security::error::{spec_message, SecurityError};
use crate::security::SecurityManager;
use vstd::prelude::*;
use vstd::string::{StrSliceExecFns, StringExecFns};

verus! {

/// Size of the chunks a blob is streamed in, in bytes.
pub const BLOB_CHUNK_SIZE: usize = 65536;

/// The token of an `Authorization` header value: what follows `Bearer `.
pub open spec fn spec_bearer_token(header: Seq<char>) -> Option<Seq<char>> {
    if header.len() >= 7 && header.take(7) == "Bearer "@ {
        Some(header.skip(7))
    } else {
        None
    }
}

/// The token of an `Authorization` header value, if it has the `Bearer `
/// prefix.
pub fn bearer_token(header: &str) -> (r: Option<String>)
    ensures
        match spec_bearer_token(header@) {
            Some(t) => (r matches Some(s) && s@ == t),
            None => r is None,
        },
{
    let prefix = "Bearer ";
    proof {
        reveal_strlit("Bearer ");
    }
    let n = header.unicode_len();
    if n < 7 {
        return None;
    }
    let mut i: usize = 0;
    while i < 7
        invariant
            i <= 7 <= n,
            n == header@.len(),
            prefix@ == "Bearer "@,
            prefix@.len() == 7,
            forall|j: int| 0 <= j < i ==> header@[j] == prefix@[j],
        decreases 7 - i,
    {
        if header.get_char(i) != prefix.get_char(i) {
            assert(header@.take(7)[i as int] != "Bearer "@[i as int]);
            return None;
        }
        i = i + 1;
    }
    assert(header@.take(7) =~= "Bearer "@);
    Some(header.substring_char(7, n).to_owned())
}

/// Why a request was refused before it reached the data.
#[derive(Debug)]
pub enum AuthDenied {
    /// No `Authorization` header, or one without a bearer token.
    MissingHeader,
    /// The token did not verify.
    InvalidToken(SecurityError),
}

impl AuthDenied {
    /// The refusal's text.
    pub fn message(&self) -> (s: String)
        ensures
            s@ == match *self {
                AuthDenied::MissingHeader => "Missing or invalid Authorization header"@,
                AuthDenied::InvalidToken(e) => "Invalid token: "@ + spec_message(e),
            },
    {
        match self {
            AuthDenied::MissingHeader => "Missing or invalid Authorization header".to_owned(),
            AuthDenied::InvalidToken(e) => {
                let mut s = "Invalid token: ".to_owned();
                let m = e.message();
                s.append(m.as_str());
                s
            },
        }
    }
}

/// Checks a request's `Authorization` header (`None` when absent or not
/// text) and returns the claims of its token.
pub fn authorize(security: &SecurityManager, header: Option<&str>) -> (r: Result<Claims, AuthDenied>)
    ensures
        match header {
            Some(h) => match spec_bearer_token(h@) {
                Some(t) => match r {
                    Ok(c) => jwt_hs256_claims(t, security.spec_auth().spec_secret()) matches Some(j)
                        && spec_missing_claim(j) is None && spec_claims_of(j, c),
                    Err(d) => (d matches AuthDenied::InvalidToken(e) && e is InvalidToken),
                },
                None => r matches Err(AuthDenied::MissingHeader),
            },
            None => r matches Err(AuthDenied::MissingHeader),
        },
{
    let h = match header {
        Some(h) => h,
        None => {
            return Err(AuthDenied::MissingHeader);
        },
    };
    let token = match bearer_token(h) {
        Some(t) => t,
        None => {
            return Err(AuthDenied::MissingHeader);
        },
    };
    match security.verify_token(token.as_str()) {
        Ok(c) => Ok(c),
        Err(e) => Err(AuthDenied::InvalidToken(e)),
    }
}

/// The reply to a login or sign-up request.
#[derive(Debug)]
pub struct AuthReply {
    pub success: bool,
    pub token: String,
    pub message: String,
}

impl AuthReply {
    /// The reply as plain values: success, token, message.
    pub open spec fn spec_fields(&self) -> (bool, Seq<char>, Seq<char>) {
        (self.success, self.token@, self.message@)
    }
}

/// The reply to a login whose authentication gave `res`.
pub open spec fn spec_login_reply(res: Result<String, SecurityError>) -> (bool, Seq<char>, Seq<char>) {
    match res {
        Ok(t) => (true, t@, "Logged in"@),
        Err(e) => (false, Seq::empty(), "Authentication failed: "@ + spec_message(e)),
    }
}

/// The reply to a login whose authentication gave `res`.
pub fn login_reply(res: Result<String, SecurityError>) -> (r: AuthReply)
    ensures
        r.spec_fields() == spec_login_reply(res),
{
    match res {
        Ok(token) => AuthReply { success: true, token, message: "Logged in".to_owned() },
        Err(e) => {
            let mut message = "Authentication failed: ".to_owned();
            let m = e.message();
            message.append(m.as_str());
            AuthReply { success: false, token: String::new(), message }
        },
    }
}

/// Logs a user in: a token on success, the reason otherwise.
pub fn login(security: &mut SecurityManager, username: &str, password: &str) -> (r: AuthReply)
    ensures
        final(security).spec_auth() == old(security).spec_auth(),
        final(security).spec_rbac() == old(security).spec_rbac(),
        final(security).spec_audit_max() == old(security).spec_audit_max(),
        exists|res: Result<String, SecurityError>| {
            &&& spec_authentication(old(security).spec_auth(), username@, password@, res)
            &&& #[trigger] spec_login_reply(res) == r.spec_fields()
            &&& res is Err ==> final(security).spec_audit() == old(security).spec_audit()
            &&& res is Ok ==> spec_logged(
                old(security).spec_audit(),
                final(security).spec_audit(),
                old(security).spec_audit_max(),
                |e: AuditEvent| e matches AuditEvent::UserAuthenticated { username: n } && n@ == username@,
            )
        },
{
    let res = security.authenticate(username, password);
    let ghost g = res;
    let r = login_reply(res);
    assert(spec_login_reply(g) == r.spec_fields());
    r
}

/// The reply to a sign-up whose creation gave `created` and whose first
/// login gave `token` (read only when the creation succeeded).
pub open spec fn spec_signup_reply(
    created: Result<Seq<char>, SecurityError>,
    token: Result<String, SecurityError>,
) -> (bool, Seq<char>, Seq<char>) {
    match created {
        Ok(username) => (
            true,
            match token {
                Ok(t) => t@,
                Err(_) => Seq::empty(),
            },
            "User '"@ + username + "' created"@,
        ),
        Err(e) => (false, Seq::empty(), "User creation failed: "@ + spec_message(e)),
    }
}

/// Whether `after` is the audit log `before` with the creation of `user`
/// (named `username`, in `tenant`) logged.
pub open spec fn spec_creation_logged(
    before: Seq<AuditLogEntry>,
    after: Seq<AuditLogEntry>,
    max: nat,
    user: User,
    username: Seq<char>,
    tenant: Seq<char>,
) -> bool {
    spec_logged(
        before,
        after,
        max,
        |e: AuditEvent| e matches AuditEvent::UserCreated { user_id: i, username: n, tenant: t }
            && i@ == user.id@ && n@ == username && t@ == tenant,
    )
}

/// Whether `after` is the audit log `before` with a login of `username`
/// logged.
pub open spec fn spec_login_logged(
    before: Seq<AuditLogEntry>,
    after: Seq<AuditLogEntry>,
    max: nat,
    username: Seq<char>,
) -> bool {
    spec_logged(
        before,
        after,
        max,
        |e: AuditEvent| e matches AuditEvent::UserAuthenticated { username: n } && n@ == username,
    )
}

/// Creates a user and logs them in: the reply carries the token issued at
/// that first login, or the reason the creation failed.
pub fn sign_up(security: &mut SecurityManager, username: &str, password: &str, tenant: &str) -> (r: AuthReply)
    ensures
        final(security).spec_rbac() == old(security).spec_rbac(),
        final(security).spec_audit_max() == old(security).spec_audit_max(),
        exists|created: Result<Seq<char>, SecurityError>, token: Result<String, SecurityError>|
            #[trigger] spec_signup_reply(created, token) == r.spec_fields() && match created {
                Ok(name) => name == username@ && exists|u| #[trigger] spec_user_creation(
                    old(security).spec_auth(),
                    final(security).spec_auth(),
                    username@,
                    password@,
                    tenant@,
                    Ok(u),
                ),
                Err(e) => spec_user_creation(
                    old(security).spec_auth(),
                    final(security).spec_auth(),
                    username@,
                    password@,
                    tenant@,
                    Err(e),
                ) && final(security).spec_audit() == old(security).spec_audit(),
            },
            r.success ==> exists|u: User, now: u64, mid: Seq<AuditLogEntry>| {
                &&& #[trigger] spec_token_for(u, now, final(security).spec_auth().spec_secret(), r.token@)
                &&& spec_user_creation(old(security).spec_auth(), final(security).spec_auth(), username@, password@, tenant@, Ok(u))
                &&& #[trigger] spec_creation_logged(old(security).spec_audit(), mid, old(security).spec_audit_max(), u, username@, tenant@)
                &&& spec_login_logged(mid, final(security).spec_audit(), old(security).spec_audit_max(), username@)
            },
{
    let ghost before_audit = security.spec_audit();
    let created = security.create_user(username, password, tenant);
    let ghost after_create = security.spec_auth();
    let ghost mid = security.spec_audit();
    match created {
        Ok(user) => {
            let ghost u = user;
            assert(spec_creation_logged(before_audit, mid, old(security).spec_audit_max(), u, username@, tenant@));
            let res = security.authenticate(username, password);
            let ghost t = res;
            proof {
                lemma_created_user_can_log_in(old(security).spec_auth(), after_create, username@, password@, tenant@, u, t);
                assert(spec_login_logged(mid, security.spec_audit(), old(security).spec_audit_max(), username@));
            }
            let mut message = "User '".to_owned();
            message.append(user.username.as_str());
            message.append("' created");
            let token = match res {
                Ok(tok) => tok,
                Err(_) => String::new(),
            };
            let r = AuthReply { success: true, token, message };
            assert(spec_signup_reply(Ok(username@), t) == r.spec_fields());
            assert(spec_user_creation(old(security).spec_auth(), after_create, username@, password@, tenant@, Ok(u)));
            r
        },
        Err(e) => {
            let ghost eg = e;
            let mut message = "User creation failed: ".to_owned();
            let m = e.message();
            message.append(m.as_str());
            let r = AuthReply { success: false, token: String::new(), message };
            assert(spec_signup_reply(Err(eg), Err(eg)) == r.spec_fields());
            r
        },
    }
}

/// The shard a key with hash `hash` goes to among `num_shards`.
pub fn shard_index(hash: u64, num_shards: usize) -> (i: usize)
    requires
        num_shards > 0,
    ensures
        i == hash % (num_shards as u64),
        i < num_shards,
{
    let n = num_shards as u64;
    (hash % n) as usize
}

/// The hash that a `std::collections::hash_map::DefaultHasher` made by
/// `new()` gives after hashing the text `key` (`str`'s `Hash`: its bytes,
/// then a 0xff byte). The standard library documents that every hasher made
/// by `new()` is the same, so the hash depends on the key alone.
pub uninterp spec fn std_default_hash(key: Seq<char>) -> u64;

/// `DefaultHasher::new()`, `Hash::hash` of `key`, then `Hasher::finish`.
#[verifier::external_body]
fn default_hash(key: &str) -> (h: u64)
    ensures
        h == std_default_hash(key@),
{
    let mut hasher = std::collections::hash_map::DefaultHasher::new();
    std::hash::Hash::hash(key, &mut hasher);
    std::hash::Hasher::finish(&hasher)
}

/// The shard `key` is routed to among `num_shards`: its hash modulo the
/// number of shards.
pub fn shard_for_key(key: &str, num_shards: usize) -> (i: usize)
    requires
        num_shards > 0,
    ensures
        i == std_default_hash(key@) % (num_shards as u64),
        i < num_shards,
{
    shard_index(default_hash(key), num_shards)
}

/// The text of the JSON object `json` with its member `key` set to the
/// string `value`, as `serde_json` writes it; `None` when `json` is not a
/// JSON object.
pub uninterp spec fn json_object_inserted(json: Seq<char>, key: Seq<char>, value: Seq<char>) -> Option<Seq<char>>;

/// The text of the JSON object with the string members `first_key: first`
/// and `second_key: second`, as `serde_json` writes it.
pub uninterp spec fn json_two_member_object(
    first_key: Seq<char>,
    first: Seq<char>,
    second_key: Seq<char>,
    second: Seq<char>,
) -> Seq<char>;

/// The string value of member `key` of the JSON object `json`; `None` when
/// `json` does not parse, is not an object, lacks the member, or the member
/// is not a string.
pub uninterp spec fn json_member_text(json: Seq<char>, key: Seq<char>) -> Option<Seq<char>>;

/// `serde_json::from_str` of `json`; when it is an object, `insert` of the
/// string `value` under `key` and the text of the result (`Value`'s
/// `Display`, which writes what `serde_json::to_string` writes and cannot
/// fail for a `Value`).
#[verifier::external_body]
fn json_object_with_member(json: &str, key: &str, value: &str) -> (r: Option<String>)
    ensures
        match r {
            Some(s) => json_object_inserted(json@, key@, value@) == Some(s@),
            None => json_object_inserted(json@, key@, value@) is None,
        },
{
    match serde_json::from_str::<serde_json::Value>(json) {
        Ok(serde_json::Value::Object(mut map)) => {
            map.insert(key.to_string(), serde_json::Value::String(value.to_string()));
            Some(serde_json::Value::Object(map).to_string())
        },
        _ => None,
    }
}

/// The text (`Value`'s `Display`) of a `serde_json` object holding the
/// string `first` under `first_key` and the string `second` under
/// `second_key`.
#[verifier::external_body]
fn json_object_of_two(first_key: &str, first: &str, second_key: &str, second: &str) -> (r: String)
    ensures
        r@ == json_two_member_object(first_key@, first@, second_key@, second@),
{
    let mut map = serde_json::Map::new();
    map.insert(first_key.to_string(), serde_json::Value::String(first.to_string()));
    map.insert(second_key.to_string(), serde_json::Value::String(second.to_string()));
    serde_json::Value::Object(map).to_string()
}

/// `serde_json::from_str` of `json`, then `get(key)` and `as_str`.
#[verifier::external_body]
pub(crate) fn json_member(json: &str, key: &str) -> (r: Option<String>)
    ensures
        match r {
            Some(s) => json_member_text(json@, key@) == Some(s@),
            None => json_member_text(json@, key@) is None,
        },
{
    match serde_json::from_str::<serde_json::Value>(json) {
        Ok(v) => match v.get(key) {
            Some(serde_json::Value::String(s)) => Some(s.clone()),
            _ => None,
        },
        Err(_) => None,
    }
}

/// The record `json` marked as belonging to `tenant`: a JSON object gets a
/// `_tenant` member; anything else is wrapped as `_data` beside `_tenant`.
pub fn inject_tenant(json: &str, tenant: &str) -> (r: String)
    ensures
        r@ == match json_object_inserted(json@, "_tenant"@, tenant@) {
            Some(s) => s,
            None => json_two_member_object("_data"@, json@, "_tenant"@, tenant@),
        },
{
    match json_object_with_member(json, "_tenant", tenant) {
        Some(s) => s,
        None => json_object_of_two("_data", json, "_tenant", tenant),
    }
}

/// Whether a stored record is visible to `tenant`: records of that tenant,
/// and records with no tenant mark (stored before tenants were recorded).
pub fn visible_to_tenant(json: &str, tenant: &str) -> (b: bool)
    ensures
        b == match json_member_text(json@, "_tenant"@) {
            Some(t) => t == tenant@,
            None => true,
        },
{
    match json_member(json, "_tenant") {
        Some(t) => t == tenant.to_owned(),
        None => true,
    }
}

/// Whether `c` is an ASCII letter or digit.
pub open spec fn spec_ascii_alphanumeric(c: char) -> bool {
    ('a' <= c <= 'z') || ('A' <= c <= 'Z') || ('0' <= c <= '9')
}

/// How `char::is_alphanumeric` classifies a character outside ASCII.
pub uninterp spec fn alphanumeric(c: char) -> bool;

/// `char::is_alphanumeric`: alphabetic or numeric in Unicode; among ASCII
/// characters, exactly the letters and digits.
#[verifier::external_body]
fn is_alphanumeric(c: char) -> (b: bool)
    ensures
        (c as u32) < 128 ==> (b <==> spec_ascii_alphanumeric(c)),
        (c as u32) >= 128 ==> b == alphanumeric(c),
{
    c.is_alphanumeric()
}

/// Whether `c` may appear in a blob identifier: a letter or digit (as
/// `char::is_alphanumeric` has it), `-` or `_`.
pub open spec fn spec_blob_id_char(c: char) -> bool {
    (if (c as u32) < 128 { spec_ascii_alphanumeric(c) } else { alphanumeric(c) }) || c == '-' || c == '_'
}

/// `id` with every character that may not appear in a blob identifier
/// removed.
pub open spec fn spec_sanitized(id: Seq<char>) -> Seq<char>
    decreases id.len(),
{
    if id.len() == 0 {
        id
    } else {
        let rest = spec_sanitized(id.drop_last());
        if spec_blob_id_char(id.last()) {
            rest.push(id.last())
        } else {
            rest
        }
    }
}

/// A blob identifier with everything but letters, digits, `-` and `_`
/// removed, so that it cannot name a path outside the blob directory.
pub fn sanitize_blob_id(id: &str) -> (r: String)
    ensures
        r@ == spec_sanitized(id@),
{
    let n = id.unicode_len();
    let mut out = String::new();
    let mut i: usize = 0;
    while i < n
        invariant
            i <= n,
            n == id@.len(),
            out@ == spec_sanitized(id@.take(i as int)),
        decreases n - i,
    {
        let c = id.get_char(i);
        assert(id@.take(i + 1).drop_last() =~= id@.take(i as int));
        assert(id@.take(i + 1).last() == c);
        if is_alphanumeric(c) || c == '-' || c == '_' {
            let piece = id.substring_char(i, i + 1);
            assert(piece@ =~= seq![c]);
            out.append(piece);
            assert(out@ =~= spec_sanitized(id@.take(i as int)).push(c));
        }
        i = i + 1;
    }
    assert(id@.take(n as int) =~= id@);
    out
}

/// A cleaned blob identifier holds only characters allowed in one; in
/// particular no `/`, backslash or `.`, so it cannot leave the blob directory.
pub proof fn lemma_sanitized_is_safe(id: Seq<char>)
    ensures
        forall|i: int| 0 <= i < spec_sanitized(id).len() ==> spec_blob_id_char(#[trigger] spec_sanitized(id)[i]),
        !spec_sanitized(id).contains('/'),
        !spec_sanitized(id).contains('\\'),
        !spec_sanitized(id).contains('.'),
        spec_sanitized(id).len() <= id.len(),
    decreases id.len(),
{
    if id.len() > 0 {
        lemma_sanitized_is_safe(id.drop_last());
        let rest = spec_sanitized(id.drop_last());
        if spec_blob_id_char(id.last()) {
            assert forall|i: int| 0 <= i < rest.push(id.last()).len() implies spec_blob_id_char(
                #[trigger] rest.push(id.last())[i],
            ) by {
                if i < rest.len() {
                    assert(rest.push(id.last())[i] == rest[i]);
                }
            }
        }
    }
    let s = spec_sanitized(id);
    assert(!spec_blob_id_char('/'));
    assert(!spec_blob_id_char('\\'));
    assert(!spec_blob_id_char('.'));
    if s.contains('/') {
        let i = choose|i: int| 0 <= i < s.len() && s[i] == '/';
        assert(spec_blob_id_char(s[i]));
    }
    if s.contains('\\') {
        let i = choose|i: int| 0 <= i < s.len() && s[i] == '\\';
        assert(spec_blob_id_char(s[i]));
    }
    if s.contains('.') {
        let i = choose|i: int| 0 <= i < s.len() && s[i] == '.';
        assert(spec_blob_id_char(s[i]));
    }
}

/// The identifier a blob is stored under, or `None` when nothing is left
/// of `id` once cleaned.
pub fn safe_blob_id(id: &str) -> (r: Option<String>)
    ensures
        match r {
            Some(s) => s@ == spec_sanitized(id@) && s@.len() > 0,
            None => spec_sanitized(id@).len() == 0,
        },
{
    let s = sanitize_blob_id(id);
    if s.unicode_len() == 0 {
        None
    } else {
        Some(s)
    }
}

/// The contents of a sequence of chunks, one after the other.
pub open spec fn spec_joined(chunks: Seq<Vec<u8>>) -> Seq<u8> {
    chunks.map_values(|c: Vec<u8>| c@).flatten()
}

/// `data` cut into chunks of `BLOB_CHUNK_SIZE` bytes, the last one possibly
/// shorter; no chunks for empty data.
pub fn blob_chunks(data: &[u8]) -> (r: Vec<Vec<u8>>)
    ensures
        spec_joined(r@) == data@,
        forall|i: int| 0 <= i < r@.len() ==> 0 < #[trigger] r@[i]@.len() <= BLOB_CHUNK_SIZE,
        forall|i: int| 0 <= i < r@.len() - 1 ==> #[trigger] r@[i]@.len() == BLOB_CHUNK_SIZE,
{
    let n = data.len();
    let mut r: Vec<Vec<u8>> = Vec::new();
    let mut start: usize = 0;
    while start < n
        invariant
            start <= n,
            n == data@.len(),
            spec_joined(r@) == data@.take(start as int),
            forall|i: int| 0 <= i < r@.len() ==> 0 < #[trigger] r@[i]@.len() <= BLOB_CHUNK_SIZE,
            forall|i: int| 0 <= i < r@.len() - 1 ==> #[trigger] r@[i]@.len() == BLOB_CHUNK_SIZE,
            r@.len() > 0 && start < n ==> r@[r@.len() - 1]@.len() == BLOB_CHUNK_SIZE,
        decreases n - start,
    {
        let end = if n - start > BLOB_CHUNK_SIZE { start + BLOB_CHUNK_SIZE } else { n };
        let mut chunk: Vec<u8> = Vec::new();
        let mut j = start;
        while j < end
            invariant
                start <= j <= end <= n,
                n == data@.len(),
                chunk@ == data@.subrange(start as int, j as int),
            decreases end - j,
        {
            chunk.push(data[j]);
            j = j + 1;
        }
        let ghost before = r@;
        r.push(chunk);
        proof {
            let f = |c: Vec<u8>| c@;
            assert(r@.map_values(f) =~= before.map_values(f).push(chunk@));
            before.map_values(f).lemma_flatten_push(chunk@);
            assert(data@.take(end as int) =~= data@.take(start as int) + data@.subrange(start as int, end as int));
        }
        start = end;
    }
    assert(data@.take(n as int) =~= data@);
    r
}

} // verus!
