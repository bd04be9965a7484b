//! How the web service keeps and checks agents' machine credentials: token hashes, the rotation
//! of a machine's token, and which token a request may present.
use vstd::prelude::*;

use crate::outside::{
    generate_password_hash, parse_uuid, password_hash_accepts, password_matches, sha256,
    sha256_digest, uuid_parsed,
};
use crate::text::{
    chars_of, has_prefix, hex_bytes, hex_of_bytes, parse_i32, parse_i64, parsed_i32, parsed_i64,
    split_char,
    split_segments, starts_with, str_eq, string_of_chars, views,
};
use vstd::utf8::encode_utf8;

verus! {

/// An instant, in nanoseconds since the Unix epoch.
pub type Nanos = i128;

/// The instant `seconds` and `nanos` past the Unix epoch, in nanoseconds (the nanoseconds may
/// run past one second within a leap second).
pub fn instant_nanos(seconds: i64, nanos: u32) -> (r: i128)
    ensures
        r == seconds * 1_000_000_000 + nanos,
{
    seconds as i128 * 1_000_000_000 + nanos as i128
}

/// A token that lets an agent enrol for a user.
#[derive(Debug, Clone, PartialEq, Eq)]
pub struct BootstrapToken {
    pub id: i64,
    pub user_id: i32,
    pub token_hash: String,
    pub name: String,
    pub expires_at: Option<i128>,
    pub revoked_at: Option<i128>,
}

/// Which of a credential's tokens a presented token is.
#[derive(Debug, Clone, Copy, PartialEq, Eq, Structural)]
pub enum TokenMatch {
    Current,
    Next,
    Previous,
    /// The token matches none of them.
    Unmatched,
}

/// Where a credential's rotation stands.
#[derive(Debug, Clone, Copy, PartialEq, Eq, Structural)]
pub enum RotationStatus {
    Active,
    Rotating,
    Confirmed,
    Revoked,
}

impl RotationStatus {
    pub open spec fn spec_as_str(self) -> Seq<char> {
        match self {
            RotationStatus::Active => "active"@,
            RotationStatus::Rotating => "rotating"@,
            RotationStatus::Confirmed => "confirmed"@,
            RotationStatus::Revoked => "revoked"@,
        }
    }

    pub fn as_str(self) -> (r: &'static str)
        ensures
            r@ == self.spec_as_str(),
    {
        match self {
            RotationStatus::Active => "active",
            RotationStatus::Rotating => "rotating",
            RotationStatus::Confirmed => "confirmed",
            RotationStatus::Revoked => "revoked",
        }
    }

    /// The status a stored name stands for.
    pub open spec fn spec_from_str(value: Seq<char>) -> Option<RotationStatus> {
        if value == "active"@ {
            Some(RotationStatus::Active)
        } else if value == "rotating"@ {
            Some(RotationStatus::Rotating)
        } else if value == "confirmed"@ {
            Some(RotationStatus::Confirmed)
        } else if value == "revoked"@ {
            Some(RotationStatus::Revoked)
        } else {
            None
        }
    }

    pub fn from_str(value: &str) -> (r: Option<RotationStatus>)
        ensures
            r == RotationStatus::spec_from_str(value@),
    {
        if str_eq(value, "active") {
            Some(RotationStatus::Active)
        } else if str_eq(value, "rotating") {
            Some(RotationStatus::Rotating)
        } else if str_eq(value, "confirmed") {
            Some(RotationStatus::Confirmed)
        } else if str_eq(value, "revoked") {
            Some(RotationStatus::Revoked)
        } else {
            None
        }
    }
}

/// A machine's credential: its current token's hash, the next one while rotating, the previous
/// one during the grace period after a confirmed rotation.
#[derive(Debug, Clone, PartialEq, Eq)]
pub struct MachineCredential {
    pub user_id: i32,
    /// The machine, as the 128-bit value of its UUID.
    pub machine_id: u128,
    pub credential_version: i64,
    pub current_token_hash: String,
    pub next_token_hash: Option<String>,
    pub previous_token_hash: Option<String>,
    pub rotation_status: RotationStatus,
    pub grace_until: Option<i128>,
    pub revoked_at: Option<i128>,
}

// ---------------------------------------------------------------------------
// Token hashes
// ---------------------------------------------------------------------------
/// The tag of a hash the agent computed itself.
pub open spec fn plain_sha256_tag() -> Seq<char> {
    "plain-sha256:"@
}

/// Whether a token matches a stored hash: a tagged SHA-256 hash by its lowercase hex, any other
/// as a password hash.
pub open spec fn token_verifies(token: Seq<char>, token_hash: Seq<char>) -> bool {
    if has_prefix(token_hash, plain_sha256_tag()) {
        hex_bytes(sha256(encode_utf8(token))) == token_hash.subrange(13, token_hash.len() as int)
    } else {
        password_hash_accepts(token, token_hash)
    }
}

/// A salted password hash of a token.
pub fn hash_token(token: &str) -> (r: String)
    requires
        encode_utf8(token@).len() <= 0xFFFF_FFFF,
    ensures
        password_hash_accepts(token@, r@),
        !has_prefix(r@, plain_sha256_tag()),
{
    let r = generate_password_hash(token);
    proof {
        reveal_strlit("plain-sha256:");
        if has_prefix(r@, plain_sha256_tag()) {
            assert(r@.subrange(0, 13)[0] == r@[0]);
        }
    }
    r
}

/// The lowercase hex of a token's SHA-256 digest.
fn sha256_hex(token: &str) -> (r: String)
    ensures
        r@ == hex_bytes(sha256(encode_utf8(token@))),
{
    let digest = sha256_digest(token.as_bytes());
    hex_of_bytes(digest.as_slice())
}

pub fn verify_token(token: &str, token_hash: &str) -> (r: bool)
    ensures
        r == token_verifies(token@, token_hash@),
{
    if starts_with(token_hash, "plain-sha256:") {
        proof {
            reveal_strlit("plain-sha256:");
        }
        let chars = chars_of(token_hash);
        let expected = string_of_chars(&chars.as_slice()[13..chars.len()]);
        let actual = sha256_hex(token);
        return str_eq(actual.as_str(), expected.as_str());
    }
    proof {
        reveal_strlit("plain-sha256:");
    }
    password_matches(token, token_hash)
}

/// A stored hash the token matches, if any.
pub open spec fn matches_hash(token: Seq<char>, h: Option<String>) -> bool {
    match h {
        Some(hash) => token_verifies(token, hash@),
        None => false,
    }
}

/// Which of a credential's tokens a token is at `now`: none once revoked; the current one; the
/// next one; the previous one only until the grace period ends.
pub open spec fn token_match(c: MachineCredential, token: Seq<char>, now: i128) -> TokenMatch {
    if c.revoked_at is Some || c.rotation_status == RotationStatus::Revoked {
        TokenMatch::Unmatched
    } else if token_verifies(token, c.current_token_hash@) {
        TokenMatch::Current
    } else if matches_hash(token, c.next_token_hash) {
        TokenMatch::Next
    } else if (c.grace_until matches Some(g) && now <= g) && matches_hash(
        token,
        c.previous_token_hash,
    ) {
        TokenMatch::Previous
    } else {
        TokenMatch::Unmatched
    }
}

fn verify_optional(token: &str, h: &Option<String>) -> (r: bool)
    ensures
        r == matches_hash(token@, *h),
{
    match h {
        Some(hash) => verify_token(token, hash.as_str()),
        None => false,
    }
}

impl MachineCredential {
    pub fn active(user_id: i32, machine_id: u128, credential_version: i64, current_token_hash: String) -> (r:
        MachineCredential)
        ensures
            r == (MachineCredential {
                user_id,
                machine_id,
                credential_version,
                current_token_hash,
                next_token_hash: None,
                previous_token_hash: None,
                rotation_status: RotationStatus::Active,
                grace_until: None,
                revoked_at: None,
            }),
    {
        MachineCredential {
            user_id,
            machine_id,
            credential_version,
            current_token_hash,
            next_token_hash: None,
            previous_token_hash: None,
            rotation_status: RotationStatus::Active,
            grace_until: None,
            revoked_at: None,
        }
    }

    pub fn rotating(
        user_id: i32,
        machine_id: u128,
        credential_version: i64,
        current_token_hash: String,
        next_token_hash: String,
        grace_until: i128,
    ) -> (r: MachineCredential)
        ensures
            r == (MachineCredential {
                user_id,
                machine_id,
                credential_version,
                current_token_hash,
                next_token_hash: Some(next_token_hash),
                previous_token_hash: None,
                rotation_status: RotationStatus::Rotating,
                grace_until: Some(grace_until),
                revoked_at: None,
            }),
    {
        MachineCredential {
            user_id,
            machine_id,
            credential_version,
            current_token_hash,
            next_token_hash: Some(next_token_hash),
            previous_token_hash: None,
            rotation_status: RotationStatus::Rotating,
            grace_until: Some(grace_until),
            revoked_at: None,
        }
    }

    pub fn confirmed(
        user_id: i32,
        machine_id: u128,
        credential_version: i64,
        current_token_hash: String,
        previous_token_hash: String,
        grace_until: i128,
    ) -> (r: MachineCredential)
        ensures
            r == (MachineCredential {
                user_id,
                machine_id,
                credential_version,
                current_token_hash,
                next_token_hash: None,
                previous_token_hash: Some(previous_token_hash),
                rotation_status: RotationStatus::Confirmed,
                grace_until: Some(grace_until),
                revoked_at: None,
            }),
    {
        MachineCredential {
            user_id,
            machine_id,
            credential_version,
            current_token_hash,
            next_token_hash: None,
            previous_token_hash: Some(previous_token_hash),
            rotation_status: RotationStatus::Confirmed,
            grace_until: Some(grace_until),
            revoked_at: None,
        }
    }

    pub fn verify_machine_token(&self, token: &str, now: i128) -> (r: TokenMatch)
        ensures
            r == token_match(*self, token@, now),
    {
        if self.revoked_at.is_some() || self.rotation_status == RotationStatus::Revoked {
            return TokenMatch::Unmatched;
        }
        if verify_token(token, self.current_token_hash.as_str()) {
            return TokenMatch::Current;
        }
        if verify_optional(token, &self.next_token_hash) {
            return TokenMatch::Next;
        }
        let in_grace = match self.grace_until {
            Some(g) => now <= g,
            None => false,
        };
        if in_grace && verify_optional(token, &self.previous_token_hash) {
            return TokenMatch::Previous;
        }
        TokenMatch::Unmatched
    }
}

// ---------------------------------------------------------------------------
// Authenticating requests
// ---------------------------------------------------------------------------
/// Why a machine's request is refused.
#[derive(Debug, Clone, Copy, PartialEq, Eq, Structural)]
pub enum AuthFailure {
    /// The request names another machine (403).
    Forbidden,
    /// The token or version does not fit (401).
    Unauthorized,
}

impl AuthFailure {
    /// The HTTP status the refusal is answered with.
    pub fn status(self) -> (r: u16)
        ensures
            r == (match self {
                AuthFailure::Forbidden => 403u16,
                AuthFailure::Unauthorized => 401u16,
            }),
    {
        match self {
            AuthFailure::Forbidden => 403,
            AuthFailure::Unauthorized => 401,
        }
    }
}

/// What a request with these headers is let in as: refused for another machine; refused when
/// its version is not the credential's, unless it is the version before a rotation presented
/// with the current token; refused when the token matches none; otherwise the token it is.
pub open spec fn auth_decision(
    c: MachineCredential,
    token: Seq<char>,
    machine_id: u128,
    credential_version: i64,
    now: i128,
) -> Result<TokenMatch, AuthFailure> {
    if c.machine_id != machine_id {
        Err(AuthFailure::Forbidden)
    } else if c.credential_version != credential_version && !(c.rotation_status
        == RotationStatus::Rotating && credential_version + 1 == c.credential_version
        && token_match(c, token, now) == TokenMatch::Current) {
        Err(AuthFailure::Unauthorized)
    } else if token_match(c, token, now) == TokenMatch::Unmatched {
        Err(AuthFailure::Unauthorized)
    } else {
        Ok(token_match(c, token, now))
    }
}

pub fn machine_auth_headers_match(
    credential: &MachineCredential,
    token: &str,
    machine_id: u128,
    credential_version: i64,
    now: i128,
) -> (r: Result<TokenMatch, AuthFailure>)
    ensures
        r == auth_decision(*credential, token@, machine_id, credential_version, now),
{
    if credential.machine_id != machine_id {
        return Err(AuthFailure::Forbidden);
    }
    let matched = credential.verify_machine_token(token, now);
    let accepts_previous_rotating_version = credential.rotation_status == RotationStatus::Rotating
        && credential_version as i128 + 1 == credential.credential_version as i128 && matched
        == TokenMatch::Current;
    if credential.credential_version != credential_version && !accepts_previous_rotating_version {
        return Err(AuthFailure::Unauthorized);
    }
    match matched {
        TokenMatch::Unmatched => Err(AuthFailure::Unauthorized),
        m => Ok(m),
    }
}

/// The token of an `Authorization: Bearer <token>` header value; none when empty.
pub open spec fn bearer_of(value: Seq<char>) -> Option<Seq<char>> {
    if has_prefix(value, "Bearer "@) && value.len() > 7 {
        Some(value.subrange(7, value.len() as int))
    } else {
        None
    }
}

/// The bearer token of a request, given its `Authorization` header's value (if it has one that
/// is text).
pub fn bearer_token(authorization: Option<&str>) -> (r: Option<String>)
    ensures
        match authorization {
            Some(v) => match r {
                Some(t) => bearer_of(v@) == Some(t@),
                None => bearer_of(v@) is None,
            },
            None => r is None,
        },
{
    let value = match authorization {
        Some(v) => v,
        None => {
            return None;
        },
    };
    proof {
        reveal_strlit("Bearer ");
    }
    if !starts_with(value, "Bearer ") {
        return None;
    }
    let chars = chars_of(value);
    if chars.len() <= 7 {
        return None;
    }
    Some(string_of_chars(&chars.as_slice()[7..chars.len()]))
}

// ---------------------------------------------------------------------------
// Internal paths
// ---------------------------------------------------------------------------
/// The segment after the first segment that is `name`, if there is one.
pub open spec fn segment_after(segs: Seq<Seq<char>>, name: Seq<char>) -> Option<Seq<char>> {
    if exists|k: int| is_first_segment(segs, name, k) {
        let k = choose|k: int| is_first_segment(segs, name, k);
        if k + 1 < segs.len() {
            Some(segs[k + 1])
        } else {
            None
        }
    } else {
        None
    }
}

pub open spec fn is_first_segment(segs: Seq<Seq<char>>, name: Seq<char>, k: int) -> bool {
    0 <= k < segs.len() && segs[k] == name && forall|j: int| 0 <= j < k ==> #[trigger] segs[j]
        != name
}

fn segment_after_name(segs: &Vec<String>, name: &str) -> (r: Option<usize>)
    ensures
        match r {
            Some(i) => i < segs@.len() && segment_after(views(segs@), name@) == Some(segs@[i as int]@),
            None => segment_after(views(segs@), name@) is None,
        },
{
    let mut k: usize = 0;
    while k < segs.len()
        invariant
            0 <= k <= segs@.len(),
            forall|j: int| 0 <= j < k ==> #[trigger] views(segs@)[j] != name@,
        decreases segs.len() - k,
    {
        if str_eq(segs[k].as_str(), name) {
            proof {
                assert(is_first_segment(views(segs@), name@, k as int));
                let q = choose|q: int| is_first_segment(views(segs@), name@, q);
                if q < k {
                    assert(views(segs@)[q] != name@);
                } else if q > k {
                    assert(views(segs@)[k as int] == name@);
                }
            }
            if k + 1 < segs.len() {
                return Some(k + 1);
            } else {
                return None;
            }
        }
        k += 1;
    }
    proof {
        assert forall|q: int| !is_first_segment(views(segs@), name@, q) by {
            if 0 <= q < segs@.len() {
                assert(views(segs@)[q] != name@);
            }
        }
    }
    None
}

/// The user an internal API path names: the segment after the first `users`, as a number.
pub open spec fn path_user_id(path: Seq<char>) -> Option<i32> {
    match segment_after(split_segments(path, '/'), "users"@) {
        Some(seg) => parsed_i32(seg),
        None => None,
    }
}

/// The machine an internal API path names: the segment after the first `machines`, as a UUID.
pub open spec fn path_machine_id(path: Seq<char>) -> Option<u128> {
    match segment_after(split_segments(path, '/'), "machines"@) {
        Some(seg) => uuid_parsed(seg),
        None => None,
    }
}

pub fn user_id_from_internal_path(path: &str) -> (r: Option<i32>)
    ensures
        r == path_user_id(path@),
{
    let segs = split_char(path, '/');
    match segment_after_name(&segs, "users") {
        Some(i) => parse_i32(segs[i].as_str()),
        None => None,
    }
}

pub fn machine_id_from_internal_path(path: &str) -> (r: Option<u128>)
    ensures
        r == path_machine_id(path@),
{
    let segs = split_char(path, '/');
    match segment_after_name(&segs, "machines") {
        Some(i) => parse_uuid(segs[i].as_str()),
        None => None,
    }
}

// ---------------------------------------------------------------------------
// The credential API's decisions
// ---------------------------------------------------------------------------
/// A refused request: the HTTP status and the error message.
#[derive(Debug, Clone, Copy, PartialEq, Eq)]
pub struct HttpRefusal {
    pub status: u16,
    pub message: &'static str,
}

pub open spec fn refusal(status: u16, message: Seq<char>) -> Option<(u16, Seq<char>)> {
    Some((status, message))
}

pub open spec fn refusal_view(r: Option<HttpRefusal>) -> Option<(u16, Seq<char>)> {
    match r {
        Some(x) => Some((x.status, x.message@)),
        None => None,
    }
}

/// Why an enrolment is refused, in the order it is checked: no bearer token, no valid bootstrap
/// token, a bootstrap token of another user, a machine not connected to the web service.
pub open spec fn enroll_refusal_of(
    bearer_present: bool,
    bootstrap_user: Option<i32>,
    request_user: i32,
    machine_connected: bool,
) -> Option<(u16, Seq<char>)> {
    if !bearer_present {
        refusal(401, "missing bearer token"@)
    } else if bootstrap_user is None {
        refusal(401, "invalid bootstrap token"@)
    } else if bootstrap_user->0 != request_user {
        refusal(403, "bootstrap token does not match user"@)
    } else if !machine_connected {
        refusal(409, "machine_not_connected"@)
    } else {
        None
    }
}

pub fn enroll_refusal(
    bearer_present: bool,
    bootstrap_user: Option<i32>,
    request_user: i32,
    machine_connected: bool,
) -> (r: Option<HttpRefusal>)
    ensures
        refusal_view(r) == enroll_refusal_of(
            bearer_present,
            bootstrap_user,
            request_user,
            machine_connected,
        ),
{
    if !bearer_present {
        return Some(HttpRefusal { status: 401, message: "missing bearer token" });
    }
    match bootstrap_user {
        None => Some(HttpRefusal { status: 401, message: "invalid bootstrap token" }),
        Some(user) => {
            if user != request_user {
                Some(HttpRefusal { status: 403, message: "bootstrap token does not match user" })
            } else if !machine_connected {
                Some(HttpRefusal { status: 409, message: "machine_not_connected" })
            } else {
                None
            }
        },
    }
}

/// Whether a credential waits for its machine to send the next token's hash.
pub open spec fn spec_rotate_required(c: MachineCredential) -> bool {
    c.rotation_status == RotationStatus::Rotating && c.next_token_hash is None
}

/// The status answer for a credential; the grace period's end is given already formatted.
pub fn credential_status_response(c: &MachineCredential, grace_until: Option<String>) -> (r:
    crate::credential::CredentialStatusResponse)
    ensures
        r.status@ == c.rotation_status.spec_as_str(),
        r.credential_version == c.credential_version,
        r.rotate_required == spec_rotate_required(*c),
        r.grace_until == grace_until,
{
    crate::credential::CredentialStatusResponse {
        status: crate::text::owned(c.rotation_status.as_str()),
        credential_version: c.credential_version,
        rotate_required: c.rotation_status == RotationStatus::Rotating && c.next_token_hash.is_none(),
        grace_until,
    }
}

/// Why a rotation request is refused: it is for another machine, no rotation is due, or the
/// next token was already issued.
pub open spec fn rotate_refusal_of(c: MachineCredential, request_user: i32, request_machine: u128) -> Option<
    (u16, Seq<char>),
> {
    if c.user_id != request_user || c.machine_id != request_machine {
        refusal(403, "machine token does not match request"@)
    } else if c.rotation_status != RotationStatus::Rotating {
        refusal(409, "credential rotation is not required"@)
    } else if c.next_token_hash is Some {
        refusal(409, "credential rotation is already issued"@)
    } else {
        None
    }
}

pub fn rotate_refusal(c: &MachineCredential, request_user: i32, request_machine: u128) -> (r: Option<
    HttpRefusal,
>)
    ensures
        refusal_view(r) == rotate_refusal_of(*c, request_user, request_machine),
{
    if c.user_id != request_user || c.machine_id != request_machine {
        return Some(HttpRefusal { status: 403, message: "machine token does not match request" });
    }
    if c.rotation_status != RotationStatus::Rotating {
        return Some(HttpRefusal { status: 409, message: "credential rotation is not required" });
    }
    if c.next_token_hash.is_some() {
        return Some(HttpRefusal { status: 409, message: "credential rotation is already issued" });
    }
    None
}

/// Why a confirmation is refused: it is for another machine, it carries no token, its token is
/// not the next one, or its version is not the credential's.
pub open spec fn confirm_refusal_of(
    c: MachineCredential,
    request_user: i32,
    request_machine: u128,
    bearer: Option<Seq<char>>,
    request_version: i64,
    now: i128,
) -> Option<(u16, Seq<char>)> {
    if c.user_id != request_user || c.machine_id != request_machine {
        refusal(403, "machine token does not match request"@)
    } else if bearer is None {
        refusal(401, "missing machine token"@)
    } else if token_match(c, bearer->0, now) != TokenMatch::Next {
        refusal(401, "credential confirm requires next token"@)
    } else if c.credential_version != request_version {
        refusal(401, "credential version mismatch"@)
    } else {
        None
    }
}

pub fn confirm_refusal(
    c: &MachineCredential,
    request_user: i32,
    request_machine: u128,
    bearer: Option<&str>,
    request_version: i64,
    now: i128,
) -> (r: Option<HttpRefusal>)
    ensures
        refusal_view(r) == confirm_refusal_of(
            *c,
            request_user,
            request_machine,
            match bearer {
                Some(t) => Some(t@),
                None => None,
            },
            request_version,
            now,
        ),
{
    if c.user_id != request_user || c.machine_id != request_machine {
        return Some(HttpRefusal { status: 403, message: "machine token does not match request" });
    }
    let token = match bearer {
        None => {
            return Some(HttpRefusal { status: 401, message: "missing machine token" });
        },
        Some(t) => t,
    };
    if c.verify_machine_token(token, now) != TokenMatch::Next {
        return Some(HttpRefusal { status: 401, message: "credential confirm requires next token" });
    }
    if c.credential_version != request_version {
        return Some(HttpRefusal { status: 401, message: "credential version mismatch" });
    }
    None
}


// ---------------------------------------------------------------------------
// Reading a machine's request
// ---------------------------------------------------------------------------
/// What a machine's request says of itself: the machine, the user, the credential version and
/// the token.
#[derive(Debug, Clone, PartialEq, Eq)]
pub struct MachineAuthHeaders {
    pub machine_id: u128,
    pub user_id: i32,
    pub credential_version: i64,
    pub token: String,
}

/// What a request's identity headers read as (each given as its text, if it has one), or why it
/// is refused: the first header, in this order, that is absent or unreadable.
pub open spec fn auth_headers_of(
    machine_id: Option<Seq<char>>,
    user_id: Option<Seq<char>>,
    credential_version: Option<Seq<char>>,
    authorization: Option<Seq<char>>,
) -> Result<(u128, i32, i64, Seq<char>), (u16, Seq<char>)> {
    let machine = match machine_id {
        Some(t) => uuid_parsed(t),
        None => None,
    };
    let user = match user_id {
        Some(t) => parsed_i32(t),
        None => None,
    };
    let version = match credential_version {
        Some(t) => parsed_i64(t),
        None => None,
    };
    let token = match authorization {
        Some(t) => bearer_of(t),
        None => None,
    };
    if machine is None {
        Err((401, "missing X-Machine-Id"@))
    } else if user is None {
        Err((401, "missing X-User-Id"@))
    } else if version is None {
        Err((401, "missing X-Credential-Version"@))
    } else if token is None {
        Err((401, "missing machine token"@))
    } else {
        Ok((machine->0, user->0, version->0, token->0))
    }
}

pub open spec fn headers_view(r: Result<MachineAuthHeaders, HttpRefusal>) -> Result<
    (u128, i32, i64, Seq<char>),
    (u16, Seq<char>),
> {
    match r {
        Ok(h) => Ok((h.machine_id, h.user_id, h.credential_version, h.token@)),
        Err(x) => Err((x.status, x.message@)),
    }
}

pub fn read_machine_auth_headers(
    machine_id: Option<&str>,
    user_id: Option<&str>,
    credential_version: Option<&str>,
    authorization: Option<&str>,
) -> (r: Result<MachineAuthHeaders, HttpRefusal>)
    ensures
        headers_view(r) == auth_headers_of(
            opt_text(machine_id),
            opt_text(user_id),
            opt_text(credential_version),
            opt_text(authorization),
        ),
{
    let machine = match machine_id {
        Some(t) => parse_uuid(t),
        None => None,
    };
    let machine = match machine {
        Some(m) => m,
        None => {
            return Err(HttpRefusal { status: 401, message: "missing X-Machine-Id" });
        },
    };
    let user = match user_id {
        Some(t) => parse_i32(t),
        None => None,
    };
    let user = match user {
        Some(u) => u,
        None => {
            return Err(HttpRefusal { status: 401, message: "missing X-User-Id" });
        },
    };
    let version = match credential_version {
        Some(t) => parse_i64(t),
        None => None,
    };
    let version = match version {
        Some(v) => v,
        None => {
            return Err(HttpRefusal { status: 401, message: "missing X-Credential-Version" });
        },
    };
    let token = match bearer_token(authorization) {
        Some(t) => t,
        None => {
            return Err(HttpRefusal { status: 401, message: "missing machine token" });
        },
    };
    Ok(MachineAuthHeaders { machine_id: machine, user_id: user, credential_version: version, token })
}

/// An optional borrowed text, as characters.
pub open spec fn opt_text(o: Option<&str>) -> Option<Seq<char>> {
    match o {
        Some(s) => Some(s@),
        None => None,
    }
}

/// Whether a machine's request is let in, given the stored credential of the machine and user
/// its headers name (if there is one): refused with 401 when there is none, refused with the
/// refusal's status when the credential does not let the token in, else let in as that token.
pub open spec fn machine_auth_outcome_of(
    credential: Option<MachineCredential>,
    h: (u128, i32, i64, Seq<char>),
    now: i128,
) -> Result<TokenMatch, (u16, Seq<char>)> {
    match credential {
        None => Err((401, "credential not found"@)),
        Some(c) => match auth_decision(c, h.3, h.0, h.2, now) {
            Ok(m) => Ok(m),
            Err(AuthFailure::Forbidden) => Err((403, "invalid machine token"@)),
            Err(AuthFailure::Unauthorized) => Err((401, "invalid machine token"@)),
        },
    }
}

pub fn machine_auth_outcome(
    credential: Option<&MachineCredential>,
    headers: &MachineAuthHeaders,
    now: i128,
) -> (r: Result<TokenMatch, HttpRefusal>)
    ensures
        match r {
            Ok(m) => machine_auth_outcome_of(
                match credential {
                    Some(c) => Some(*c),
                    None => None,
                },
                (headers.machine_id, headers.user_id, headers.credential_version, headers.token@),
                now,
            ) == Ok::<TokenMatch, (u16, Seq<char>)>(m),
            Err(x) => machine_auth_outcome_of(
                match credential {
                    Some(c) => Some(*c),
                    None => None,
                },
                (headers.machine_id, headers.user_id, headers.credential_version, headers.token@),
                now,
            ) == Err::<TokenMatch, (u16, Seq<char>)>((x.status, x.message@)),
        },
{
    let c = match credential {
        Some(c) => c,
        None => {
            return Err(HttpRefusal { status: 401, message: "credential not found" });
        },
    };
    match machine_auth_headers_match(
        c,
        headers.token.as_str(),
        headers.machine_id,
        headers.credential_version,
        now,
    ) {
        Ok(m) => Ok(m),
        Err(f) => Err(HttpRefusal { status: f.status(), message: "invalid machine token" }),
    }
}

// ---------------------------------------------------------------------------
// Access to a machine's internal routes
// ---------------------------------------------------------------------------
/// What becomes of a request to a machine's internal routes.
#[derive(Debug, Clone, PartialEq, Eq)]
pub enum RouteAccess {
    /// Let the request through.
    Pass,
    /// Refuse it with 403.
    Forbidden,
    /// Refuse it with 401.
    Unauthorized,
    /// Look up the credential of the machine and user the path names, then decide.
    CheckCredential(MachineAuthHeaders),
}

/// An access decision: `Ok(None)` lets through, `Ok(Some(claim))` checks the claim against the
/// stored credential, `Err(status)` refuses.
pub open spec fn access_view(g: RouteAccess) -> Result<Option<(u128, i32, i64, Seq<char>)>, u16> {
    match g {
        RouteAccess::Pass => Ok(None),
        RouteAccess::Forbidden => Err(403),
        RouteAccess::Unauthorized => Err(401),
        RouteAccess::CheckCredential(h) => Ok(Some((h.machine_id, h.user_id, h.credential_version, h.token@))),
    }
}

/// The first decision on a request: through when the legacy shared token is configured and presented;
/// 403 when the path names no user or no machine; 401 without a bearer token or a readable
/// credential version; otherwise the claim is checked against the stored credential.
pub open spec fn route_access_of(
    legacy_token: Option<Seq<char>>,
    internal_auth: Option<Seq<char>>,
    path: Seq<char>,
    authorization: Option<Seq<char>>,
    credential_version: Option<Seq<char>>,
) -> Result<Option<(u128, i32, i64, Seq<char>)>, u16> {
    let token = match authorization {
        Some(t) => bearer_of(t),
        None => None,
    };
    let version = match credential_version {
        Some(t) => parsed_i64(t),
        None => None,
    };
    if legacy_token is Some && internal_auth == legacy_token {
        Ok(None)
    } else if path_user_id(path) is None || path_machine_id(path) is None {
        Err(403)
    } else if token is None || version is None {
        Err(401)
    } else {
        Ok(Some((path_machine_id(path)->0, path_user_id(path)->0, version->0, token->0)))
    }
}

pub fn route_access(
    legacy_token: Option<&str>,
    internal_auth: Option<&str>,
    path: &str,
    authorization: Option<&str>,
    credential_version: Option<&str>,
) -> (r: RouteAccess)
    ensures
        access_view(r) == route_access_of(
            opt_text(legacy_token),
            opt_text(internal_auth),
            path@,
            opt_text(authorization),
            opt_text(credential_version),
        ),
{
    if let (Some(expected), Some(given)) = (legacy_token, internal_auth) {
        if str_eq(expected, given) {
            return RouteAccess::Pass;
        }
    }
    let user_id = match user_id_from_internal_path(path) {
        Some(u) => u,
        None => {
            return RouteAccess::Forbidden;
        },
    };
    let machine_id = match machine_id_from_internal_path(path) {
        Some(m) => m,
        None => {
            return RouteAccess::Forbidden;
        },
    };
    let token = match bearer_token(authorization) {
        Some(t) => t,
        None => {
            return RouteAccess::Unauthorized;
        },
    };
    let version = match credential_version {
        Some(t) => parse_i64(t),
        None => None,
    };
    match version {
        Some(v) => RouteAccess::CheckCredential(
            MachineAuthHeaders { machine_id, user_id, credential_version: v, token },
        ),
        None => RouteAccess::Unauthorized,
    }
}

/// The decision once the credential is looked up: 401 without one; otherwise through when
/// the credential lets the claim in, else 403 or 401 as it refuses it.
pub open spec fn credential_access_of(
    credential: Option<MachineCredential>,
    claim: (u128, i32, i64, Seq<char>),
    now: i128,
) -> Result<Option<(u128, i32, i64, Seq<char>)>, u16> {
    match credential {
        None => Err(401),
        Some(c) => match auth_decision(c, claim.3, claim.0, claim.2, now) {
            Ok(_) => Ok(None),
            Err(AuthFailure::Forbidden) => Err(403),
            Err(AuthFailure::Unauthorized) => Err(401),
        },
    }
}

pub fn credential_access(credential: Option<&MachineCredential>, claim: &MachineAuthHeaders, now: i128) -> (r:
    RouteAccess)
    ensures
        access_view(r) == credential_access_of(
            match credential {
                Some(c) => Some(*c),
                None => None,
            },
            (claim.machine_id, claim.user_id, claim.credential_version, claim.token@),
            now,
        ),
{
    let c = match credential {
        Some(c) => c,
        None => {
            return RouteAccess::Unauthorized;
        },
    };
    match machine_auth_headers_match(
        c,
        claim.token.as_str(),
        claim.machine_id,
        claim.credential_version,
        now,
    ) {
        Ok(_) => RouteAccess::Pass,
        Err(AuthFailure::Forbidden) => RouteAccess::Forbidden,
        Err(AuthFailure::Unauthorized) => RouteAccess::Unauthorized,
    }
}

// ---------------------------------------------------------------------------
// Which tokens a credential lets in
// ---------------------------------------------------------------------------
/// The hash an agent computes of its token is one the web service accepts that token for.
pub proof fn lemma_agent_hash_verifies(token: Seq<char>)
    ensures
        token_verifies(token, crate::credential::agent_token_hash(sha256(encode_utf8(token)))),
{
    let h = crate::credential::agent_token_hash(sha256(encode_utf8(token)));
    reveal_strlit("plain-sha256:");
    assert(h.subrange(0, 13) =~= plain_sha256_tag());
    assert(h.subrange(13, h.len() as int) =~= hex_bytes(sha256(encode_utf8(token))));
}

/// A credential that is not revoked lets its own machine in with its current token and its
/// version, as that current token.
pub proof fn lemma_current_token_is_let_in(c: MachineCredential, token: Seq<char>, now: i128)
    requires
        c.revoked_at is None,
        c.rotation_status != RotationStatus::Revoked,
        token_verifies(token, c.current_token_hash@),
    ensures
        token_match(c, token, now) == TokenMatch::Current,
        auth_decision(c, token, c.machine_id, c.credential_version, now) == Ok::<TokenMatch, AuthFailure>(
            TokenMatch::Current,
        ),
{
}

/// While a rotation is under way, the current token is also let in with the version before the
/// rotation, and the next token is recognised as the next one.
pub proof fn lemma_rotation_lets_in_both_tokens(
    c: MachineCredential,
    current: Seq<char>,
    next: Seq<char>,
    now: i128,
)
    requires
        c.revoked_at is None,
        c.rotation_status == RotationStatus::Rotating,
        c.credential_version > i64::MIN,
        token_verifies(current, c.current_token_hash@),
        matches_hash(next, c.next_token_hash),
        !token_verifies(next, c.current_token_hash@),
    ensures
        auth_decision(c, current, c.machine_id, (c.credential_version - 1) as i64, now) == Ok::<
            TokenMatch,
            AuthFailure,
        >(TokenMatch::Current),
        token_match(c, next, now) == TokenMatch::Next,
{
}

/// After a rotation is confirmed, the previous token is recognised until the grace period ends,
/// and not after.
pub proof fn lemma_previous_token_only_in_grace(c: MachineCredential, previous: Seq<char>, now: i128)
    requires
        c.revoked_at is None,
        c.rotation_status != RotationStatus::Revoked,
        c.grace_until is Some,
        matches_hash(previous, c.previous_token_hash),
        !token_verifies(previous, c.current_token_hash@),
        !matches_hash(previous, c.next_token_hash),
    ensures
        token_match(c, previous, now) == (if now <= c.grace_until->0 {
            TokenMatch::Previous
        } else {
            TokenMatch::Unmatched
        }),
{
}

/// A revoked credential lets no token in.
pub proof fn lemma_revoked_lets_nothing_in(
    c: MachineCredential,
    token: Seq<char>,
    machine_id: u128,
    credential_version: i64,
    now: i128,
)
    requires
        c.revoked_at is Some || c.rotation_status == RotationStatus::Revoked,
    ensures
        token_match(c, token, now) == TokenMatch::Unmatched,
        auth_decision(c, token, machine_id, credential_version, now) is Err,
{
}


// ---------------------------------------------------------------------------
// A credential's rotation, step by step
// ---------------------------------------------------------------------------
/// Why a rotation cannot be confirmed.
#[derive(Debug, Clone, Copy, PartialEq, Eq, Structural)]
pub enum RotationError {
    /// No next token was issued.
    NoNextToken,
}

impl RotationError {
    pub fn message(&self) -> (r: &'static str)
        ensures
            r@ == "agent machine credential has no next token"@,
    {
        proof {
            reveal_strlit("agent machine credential has no next token");
        }
        "agent machine credential has no next token"
    }
}

/// A credential asked to rotate: one version on, rotating, with the given end of the grace
/// period.
pub open spec fn rotating_of(c: MachineCredential, grace_until: i128) -> MachineCredential {
    MachineCredential {
        credential_version: (c.credential_version + 1) as i64,
        rotation_status: RotationStatus::Rotating,
        grace_until: Some(grace_until),
        ..c
    }
}

/// A credential that was sent the hash of its next token.
pub open spec fn with_next_of(c: MachineCredential, next_token_hash: String) -> MachineCredential {
    MachineCredential {
        next_token_hash: Some(next_token_hash),
        rotation_status: RotationStatus::Rotating,
        ..c
    }
}

/// A confirmed rotation: the next token becomes the current one, the current one the previous
/// one.
pub open spec fn confirmed_of(c: MachineCredential) -> Result<MachineCredential, RotationError> {
    match c.next_token_hash {
        None => Err(RotationError::NoNextToken),
        Some(next) => Ok(
            MachineCredential {
                current_token_hash: next,
                previous_token_hash: Some(c.current_token_hash),
                next_token_hash: None,
                rotation_status: RotationStatus::Confirmed,
                ..c
            },
        ),
    }
}

impl MachineCredential {
    /// Asks the machine to rotate its token.
    pub fn mark_rotating(self, grace_until: i128) -> (r: MachineCredential)
        requires
            self.credential_version < i64::MAX,
        ensures
            r == rotating_of(self, grace_until),
    {
        let mut c = self;
        c.credential_version = c.credential_version + 1;
        c.rotation_status = RotationStatus::Rotating;
        c.grace_until = Some(grace_until);
        c
    }

    /// Records the hash of the machine's next token.
    pub fn with_next_token_hash(self, next_token_hash: String) -> (r: MachineCredential)
        ensures
            r == with_next_of(self, next_token_hash),
    {
        let mut c = self;
        c.next_token_hash = Some(next_token_hash);
        c.rotation_status = RotationStatus::Rotating;
        c
    }

    /// Confirms the rotation.
    pub fn confirm_rotation(self) -> (r: Result<MachineCredential, RotationError>)
        ensures
            r == confirmed_of(self),
    {
        let mut c = self;
        let next = match c.next_token_hash {
            Some(n) => n,
            None => {
                return Err(RotationError::NoNextToken);
            },
        };
        let previous = c.current_token_hash;
        c.current_token_hash = next;
        c.previous_token_hash = Some(previous);
        c.next_token_hash = None;
        c.rotation_status = RotationStatus::Confirmed;
        Ok(c)
    }
}

/// A rotation hands the machine over from its old token to its new one: while it is under way
/// the old token is let in (with the old version too) and the new one is recognised as the next
/// one; once confirmed the new token is the current one, and the old one is recognised as the
/// previous one until the grace period ends and not after.
pub proof fn lemma_rotation_hands_over_tokens(
    c: MachineCredential,
    grace_until: i128,
    old_token: Seq<char>,
    new_token: Seq<char>,
    new_hash: String,
    now: i128,
)
    requires
        c.revoked_at is None,
        c.rotation_status != RotationStatus::Revoked,
        i64::MIN < c.credential_version < i64::MAX,
        token_verifies(old_token, c.current_token_hash@),
        token_verifies(new_token, new_hash@),
        !token_verifies(new_token, c.current_token_hash@),
        !token_verifies(old_token, new_hash@),
    ensures
        ({
            let during = with_next_of(rotating_of(c, grace_until), new_hash);
            &&& auth_decision(during, old_token, c.machine_id, during.credential_version, now)
                == Ok::<TokenMatch, AuthFailure>(TokenMatch::Current)
            &&& auth_decision(during, old_token, c.machine_id, c.credential_version, now) == Ok::<
                TokenMatch,
                AuthFailure,
            >(TokenMatch::Current)
            &&& token_match(during, new_token, now) == TokenMatch::Next
        }),
        ({
            let after = confirmed_of(with_next_of(rotating_of(c, grace_until), new_hash));
            &&& after is Ok
            &&& auth_decision(
                after->Ok_0,
                new_token,
                c.machine_id,
                (c.credential_version + 1) as i64,
                now,
            ) == Ok::<TokenMatch, AuthFailure>(TokenMatch::Current)
            &&& token_match(after->Ok_0, old_token, now) == (if now <= grace_until {
                TokenMatch::Previous
            } else {
                TokenMatch::Unmatched
            })
        }),
{
    let during = with_next_of(rotating_of(c, grace_until), new_hash);
    lemma_current_token_is_let_in(during, old_token, now);
    lemma_rotation_lets_in_both_tokens(during, old_token, new_token, now);
    let after = confirmed_of(during)->Ok_0;
    lemma_current_token_is_let_in(after, new_token, now);
    lemma_previous_token_only_in_grace(after, old_token, now);
}

// ---------------------------------------------------------------------------
// Bootstrap tokens
// ---------------------------------------------------------------------------
/// A bootstrap token lets a presented token enrol at `now`: it is not revoked, not expired, and
/// its hash accepts the token.
pub open spec fn bootstrap_accepts(b: BootstrapToken, token: Seq<char>, now: i128) -> bool {
    &&& b.revoked_at is None
    &&& match b.expires_at {
        Some(e) => now <= e,
        None => true,
    }
    &&& token_verifies(token, b.token_hash@)
}

/// The first of the stored bootstrap tokens that accepts the presented token.
pub open spec fn first_accepting(tokens: Seq<BootstrapToken>, token: Seq<char>, now: i128) -> Option<int>
    decreases tokens.len(),
{
    if tokens.len() == 0 {
        None
    } else {
        match first_accepting(tokens.drop_last(), token, now) {
            Some(k) => Some(k),
            None => if bootstrap_accepts(tokens.last(), token, now) {
                Some(tokens.len() - 1)
            } else {
                None
            },
        }
    }
}

proof fn lemma_first_accepting_prefix(tokens: Seq<BootstrapToken>, token: Seq<char>, now: i128, n: int)
    requires
        0 <= n <= tokens.len(),
        first_accepting(tokens.take(n), token, now) is Some,
    ensures
        first_accepting(tokens, token, now) == first_accepting(tokens.take(n), token, now),
    decreases tokens.len() - n,
{
    if n < tokens.len() {
        assert(tokens.take(n + 1).drop_last() =~= tokens.take(n));
        lemma_first_accepting_prefix(tokens, token, now, n + 1);
    } else {
        assert(tokens.take(n) =~= tokens);
    }
}

/// The position of the bootstrap token a presented token enrols with, if any.
pub fn find_valid_bootstrap_token(tokens: &[BootstrapToken], token: &str, now: i128) -> (r: Option<usize>)
    ensures
        match r {
            Some(k) => k < tokens@.len() && first_accepting(tokens@, token@, now) == Some(k as int),
            None => first_accepting(tokens@, token@, now) is None,
        },
{
    let mut k: usize = 0;
    while k < tokens.len()
        invariant
            0 <= k <= tokens@.len(),
            first_accepting(tokens@.take(k as int), token@, now) is None,
        decreases tokens.len() - k,
    {
        proof {
            assert(tokens@.take(k + 1).drop_last() =~= tokens@.take(k as int));
            assert(tokens@.take(k + 1).last() == tokens@[k as int]);
        }
        let b = &tokens[k];
        let live = b.revoked_at.is_none() && match b.expires_at {
            Some(e) => now <= e,
            None => true,
        };
        if live && verify_token(token, b.token_hash.as_str()) {
            proof {
                lemma_first_accepting_prefix(tokens@, token@, now, k + 1);
            }
            return Some(k);
        }
        k += 1;
    }
    proof {
        assert(tokens@.take(k as int) =~= tokens@);
    }
    None
}


// ---------------------------------------------------------------------------
// Enrolment
// ---------------------------------------------------------------------------
/// The user whose bootstrap token a request enrols with: the first stored token that accepts the
/// bearer token.
pub open spec fn enrolling_user(bearer: Option<Seq<char>>, tokens: Seq<BootstrapToken>, now: i128) -> Option<
    i32,
> {
    match bearer {
        None => None,
        Some(t) => match first_accepting(tokens, t, now) {
            Some(k) => Some(tokens[k].user_id),
            None => None,
        },
    }
}

/// What an enrolment request comes to.
#[derive(Debug, Clone, PartialEq, Eq)]
pub enum EnrollDecision {
    Refused(HttpRefusal),
    /// The machine has a credential already: its version is answered and nothing is stored.
    AlreadyEnrolled(i64),
    /// A new active credential, to be stored.
    Create(MachineCredential),
}

/// An enrolment's decision, given the request's `Authorization` header, the stored bootstrap
/// tokens, whether the machine is connected and its stored credential: the refusal where
/// there is one, else the stored credential's version, else a new active credential at version 1
/// with the hash the agent sent.
pub open spec fn enroll_decision_holds(
    d: EnrollDecision,
    authorization: Option<Seq<char>>,
    tokens: Seq<BootstrapToken>,
    now: i128,
    request_user: i32,
    request_machine: u128,
    machine_token_hash: String,
    machine_connected: bool,
    existing: Option<MachineCredential>,
) -> bool {
    let bearer = match authorization {
        Some(v) => bearer_of(v),
        None => None,
    };
    let refused = enroll_refusal_of(
        bearer is Some,
        enrolling_user(bearer, tokens, now),
        request_user,
        machine_connected,
    );
    match d {
        EnrollDecision::Refused(x) => refused is Some && refusal_view(Some(x)) == refused,
        EnrollDecision::AlreadyEnrolled(v) => refused is None && existing is Some && v
            == existing->0.credential_version,
        EnrollDecision::Create(c) => refused is None && existing is None && c == (MachineCredential {
            user_id: request_user,
            machine_id: request_machine,
            credential_version: 1,
            current_token_hash: machine_token_hash,
            next_token_hash: None,
            previous_token_hash: None,
            rotation_status: RotationStatus::Active,
            grace_until: None,
            revoked_at: None,
        }),
    }
}

/// Decides an enrolment request.
pub fn enroll_agent(
    authorization: Option<&str>,
    tokens: &[BootstrapToken],
    now: i128,
    request_user: i32,
    request_machine: u128,
    machine_token_hash: String,
    machine_connected: bool,
    existing: Option<&MachineCredential>,
) -> (r: EnrollDecision)
    ensures
        enroll_decision_holds(
            r,
            match authorization {
                Some(v) => Some(v@),
                None => None,
            },
            tokens@,
            now,
            request_user,
            request_machine,
            machine_token_hash,
            machine_connected,
            match existing {
                Some(c) => Some(*c),
                None => None,
            },
        ),
{
    let bearer = bearer_token(authorization);
    let user = match &bearer {
        None => None,
        Some(t) => match find_valid_bootstrap_token(tokens, t.as_str(), now) {
            Some(k) => Some(tokens[k].user_id),
            None => None,
        },
    };
    match enroll_refusal(bearer.is_some(), user, request_user, machine_connected) {
        Some(x) => EnrollDecision::Refused(x),
        None => match existing {
            Some(c) => EnrollDecision::AlreadyEnrolled(c.credential_version),
            None => EnrollDecision::Create(
                MachineCredential::active(request_user, request_machine, 1, machine_token_hash),
            ),
        },
    }
}

proof fn lemma_first_accepting_accepts(tokens: Seq<BootstrapToken>, token: Seq<char>, now: i128)
    ensures
        match first_accepting(tokens, token, now) {
            Some(k) => 0 <= k < tokens.len() && bootstrap_accepts(tokens[k], token, now),
            None => forall|i: int| 0 <= i < tokens.len() ==> !bootstrap_accepts(#[trigger] tokens[i], token, now),
        },
    decreases tokens.len(),
{
    if tokens.len() > 0 {
        lemma_first_accepting_accepts(tokens.drop_last(), token, now);
        assert forall|i: int| 0 <= i < tokens.len() - 1 implies #[trigger] tokens[i] == tokens.drop_last()[i] by {}
    }
}

/// An enrolment goes through only with a bearer token that a live bootstrap token of the
/// requesting user accepts, for a connected machine; and it never replaces a machine's stored
/// credential.
pub proof fn lemma_enrolment_needs_live_bootstrap_token(
    d: EnrollDecision,
    authorization: Option<Seq<char>>,
    tokens: Seq<BootstrapToken>,
    now: i128,
    request_user: i32,
    request_machine: u128,
    machine_token_hash: String,
    machine_connected: bool,
    existing: Option<MachineCredential>,
)
    requires
        enroll_decision_holds(
            d,
            authorization,
            tokens,
            now,
            request_user,
            request_machine,
            machine_token_hash,
            machine_connected,
            existing,
        ),
        !(d is Refused),
    ensures
        machine_connected,
        authorization is Some,
        bearer_of(authorization->0) is Some,
        exists|k: int|
            0 <= k < tokens.len() && #[trigger] tokens[k].user_id == request_user && bootstrap_accepts(
                tokens[k],
                bearer_of(authorization->0)->0,
                now,
            ),
        existing is Some ==> d == EnrollDecision::AlreadyEnrolled(existing->0.credential_version),
{
    let bearer = bearer_of(authorization->0)->0;
    lemma_first_accepting_accepts(tokens, bearer, now);
    let k = first_accepting(tokens, bearer, now)->0;
    assert(tokens[k].user_id == request_user);
}

/// An agent that enrols with the hash of its own token is, from then on, let in with that token
/// at credential version 1, for the machine it enrolled.
pub proof fn lemma_enrolled_agent_is_let_in(
    d: EnrollDecision,
    authorization: Option<Seq<char>>,
    tokens: Seq<BootstrapToken>,
    now: i128,
    request_user: i32,
    request_machine: u128,
    machine_token_hash: String,
    token: Seq<char>,
    machine_connected: bool,
    existing: Option<MachineCredential>,
    later: i128,
)
    requires
        d is Create,
        enroll_decision_holds(
            d,
            authorization,
            tokens,
            now,
            request_user,
            request_machine,
            machine_token_hash,
            machine_connected,
            existing,
        ),
        machine_token_hash@ == crate::credential::agent_token_hash(sha256(encode_utf8(token))),
    ensures
        auth_decision(d->Create_0, token, request_machine, 1, later) == Ok::<TokenMatch, AuthFailure>(
            TokenMatch::Current,
        ),
{
    lemma_agent_hash_verifies(token);
    lemma_current_token_is_let_in(d->Create_0, token, later);
}

} // verus!
