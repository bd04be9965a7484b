//! The agent's machine credential: the token it enrols with, how it proves itself, and how a
//! rotated token replaces the current one.
use vstd::prelude::*;

use crate::outside::{random_uuid, sha256, sha256_digest, uuid_hyphenated, uuid_text};
use vstd::utf8::encode_utf8;
use crate::report::{agent_version, spec_agent_version};
use crate::text::{
    concat2, hex_bytes, hex_of_bytes, i64_to_decimal, owned, push_str, signed_decimal,
    strip_trailing, trim_end_char,
};

verus! {

/// What an agent sends to enrol its machine.
#[derive(Debug, Clone, PartialEq, Eq)]
pub struct EnrollAgentRequest {
    pub user_id: i32,
    pub machine_id: String,
    pub machine_token_hash: String,
    pub hostname: Option<String>,
    pub agent_version: Option<String>,
    pub easytier_version: Option<String>,
}

#[derive(Debug, Clone, PartialEq, Eq)]
pub struct EnrollAgentResponse {
    pub credential_version: i64,
    pub api_base_url: Option<String>,
}

#[derive(Debug, Clone, PartialEq, Eq)]
pub struct CredentialStatusResponse {
    pub status: String,
    pub credential_version: i64,
    pub rotate_required: bool,
    pub grace_until: Option<String>,
}

#[derive(Debug, Clone, PartialEq, Eq)]
pub struct RotateCredentialRequest {
    pub user_id: i32,
    pub machine_id: String,
    pub next_token_hash: String,
}

#[derive(Debug, Clone, PartialEq, Eq)]
pub struct RotateCredentialResponse {
    pub credential_version: i64,
    pub grace_until: Option<String>,
}

#[derive(Debug, Clone, PartialEq, Eq)]
pub struct ConfirmCredentialRequest {
    pub user_id: i32,
    pub machine_id: String,
    pub credential_version: i64,
}

#[derive(Debug, Clone, PartialEq, Eq)]
pub struct ConfirmCredentialResponse {
    pub status: String,
    pub credential_version: i64,
}

/// The credential an agent keeps on disk.
#[derive(Debug, Clone, PartialEq, Eq)]
pub struct MachineCredentialFile {
    pub machine_id: String,
    pub credential_version: i64,
    pub current_token: String,
    pub next_token: Option<String>,
    pub next_token_status: Option<String>,
    pub api_base_url: Option<String>,
    pub updated_at: String,
}

/// Why a credential step cannot go on.
#[derive(Debug, Clone, PartialEq, Eq)]
pub enum CredentialError {
    /// Confirming a rotation needs the next token.
    MissingNextToken,
    /// The next token was gone when the rotation was confirmed.
    NextTokenDisappeared,
}

impl CredentialError {
    pub open spec fn spec_message(self) -> Seq<char> {
        match self {
            CredentialError::MissingNextToken => "credential confirm requires next_token"@,
            CredentialError::NextTokenDisappeared => "next token disappeared during confirm"@,
        }
    }

    pub fn message(&self) -> (r: String)
        ensures
            r@ == self.spec_message(),
    {
        match self {
            CredentialError::MissingNextToken => owned("credential confirm requires next_token"),
            CredentialError::NextTokenDisappeared => owned("next token disappeared during confirm"),
        }
    }
}

// ---------------------------------------------------------------------------
// Tokens
// ---------------------------------------------------------------------------
/// A fresh machine token: a random UUID in its hyphenated form.
pub fn new_machine_token() -> (r: String)
    ensures
        exists|v: u128| r@ == uuid_hyphenated(v),
{
    uuid_text(random_uuid())
}

/// How the control plane stores a token it was sent the hash of: the SHA-256 digest in lowercase
/// hex, tagged with the scheme.
pub open spec fn agent_token_hash(digest: Seq<u8>) -> Seq<char> {
    "plain-sha256:"@ + hex_bytes(digest)
}

/// The stored form of a token whose digest is given.
pub fn format_agent_token_hash(digest: &[u8]) -> (r: String)
    ensures
        r@ == agent_token_hash(digest@),
{
    let hex = hex_of_bytes(digest);
    concat2("plain-sha256:", hex.as_str())
}

/// The hash an agent sends of a token: the SHA-256 of its UTF-8 bytes, tagged.
pub fn hash_agent_token(token: &str) -> (r: String)
    ensures
        r@ == agent_token_hash(sha256(encode_utf8(token@))),
{
    let digest = sha256_digest(token.as_bytes());
    format_agent_token_hash(digest.as_slice())
}

// ---------------------------------------------------------------------------
// Requests
// ---------------------------------------------------------------------------
/// An agent API URL under the base URL (its trailing slashes dropped).
pub open spec fn agent_api_url(base: Seq<char>, tail: Seq<char>) -> Seq<char> {
    strip_trailing(base, '/') + tail
}

/// `base` (trailing slashes dropped) followed by `tail`.
pub fn agent_endpoint(web_base_url: &str, tail: &str) -> (r: String)
    ensures
        r@ == agent_api_url(web_base_url@, tail@),
{
    let mut r = trim_end_char(web_base_url, '/');
    push_str(&mut r, tail);
    r
}

/// The enrolment request for a machine token: only the token's hash leaves the machine.
pub fn enroll_request(user_id: i32, machine_id: &str, machine_token: &str) -> (r: EnrollAgentRequest)
    ensures
        r.user_id == user_id,
        r.machine_id@ == machine_id@,
        r.machine_token_hash@ == agent_token_hash(sha256(encode_utf8(machine_token@))),
        r.hostname is None,
        r.agent_version matches Some(v) && v@ == spec_agent_version(),
        r.easytier_version is None,
{
    EnrollAgentRequest {
        user_id,
        machine_id: owned(machine_id),
        machine_token_hash: hash_agent_token(machine_token),
        hostname: None,
        agent_version: Some(agent_version()),
        easytier_version: None,
    }
}

/// The credential an enrolment yields: version and API URL from the answer, the token kept.
pub fn enrolled_credential(
    machine_id: &str,
    machine_token: String,
    response: EnrollAgentResponse,
    updated_at: String,
) -> (r: MachineCredentialFile)
    ensures
        r.machine_id@ == machine_id@,
        r.credential_version == response.credential_version,
        r.current_token == machine_token,
        r.next_token is None,
        r.next_token_status is None,
        r.api_base_url == response.api_base_url,
        r.updated_at == updated_at,
{
    MachineCredentialFile {
        machine_id: owned(machine_id),
        credential_version: response.credential_version,
        current_token: machine_token,
        next_token: None,
        next_token_status: None,
        api_base_url: response.api_base_url,
        updated_at,
    }
}

/// The headers that authenticate with a token as a machine of a user.
pub open spec fn machine_header_views(
    token: Seq<char>,
    user_id: i32,
    machine_id: Seq<char>,
    credential_version: i64,
) -> Seq<(Seq<char>, Seq<char>)> {
    seq![
        ("Authorization"@, "Bearer "@ + token),
        ("X-User-Id"@, signed_decimal(user_id as int)),
        ("X-Machine-Id"@, machine_id),
        ("X-Credential-Version"@, signed_decimal(credential_version as int)),
    ]
}

fn token_headers(token: &str, user_id: i32, credential: &MachineCredentialFile) -> (r: Vec<
    (String, String),
>)
    ensures
        crate::reporter::header_views(r@) == machine_header_views(
            token@,
            user_id,
            credential.machine_id@,
            credential.credential_version,
        ),
{
    let mut r: Vec<(String, String)> = Vec::new();
    r.push((owned("Authorization"), concat2("Bearer ", token)));
    r.push((owned("X-User-Id"), i64_to_decimal(user_id as i64)));
    r.push((owned("X-Machine-Id"), credential.machine_id.clone()));
    r.push((owned("X-Credential-Version"), i64_to_decimal(credential.credential_version)));
    assert(crate::reporter::header_views(r@) =~= machine_header_views(
        token@,
        user_id,
        credential.machine_id@,
        credential.credential_version,
    ));
    r
}

/// The headers of a request made with the current token.
pub fn machine_auth_headers(user_id: i32, credential: &MachineCredentialFile) -> (r: Vec<
    (String, String),
>)
    ensures
        crate::reporter::header_views(r@) == machine_header_views(
            credential.current_token@,
            user_id,
            credential.machine_id@,
            credential.credential_version,
        ),
{
    token_headers(credential.current_token.as_str(), user_id, credential)
}

/// The headers of the request that confirms a rotation: made with the next token.
pub fn confirm_auth_headers(user_id: i32, credential: &MachineCredentialFile) -> (r: Result<
    Vec<(String, String)>,
    CredentialError,
>)
    ensures
        match credential.next_token {
            Some(next) => r matches Ok(h) && crate::reporter::header_views(h@)
                == machine_header_views(
                next@,
                user_id,
                credential.machine_id@,
                credential.credential_version,
            ),
            None => r == Err::<Vec<(String, String)>, CredentialError>(
                CredentialError::MissingNextToken,
            ),
        },
{
    match &credential.next_token {
        Some(next) => Ok(token_headers(next.as_str(), user_id, credential)),
        None => Err(CredentialError::MissingNextToken),
    }
}

/// The rotation request for a next token: only its hash leaves the machine.
pub fn rotate_request(user_id: i32, credential: &MachineCredentialFile, next_token: &str) -> (r:
    RotateCredentialRequest)
    ensures
        r.user_id == user_id,
        r.machine_id == credential.machine_id,
        r.next_token_hash@ == agent_token_hash(sha256(encode_utf8(next_token@))),
{
    RotateCredentialRequest {
        user_id,
        machine_id: credential.machine_id.clone(),
        next_token_hash: hash_agent_token(next_token),
    }
}

/// The confirmation request for the credential's version.
pub fn confirm_request(user_id: i32, credential: &MachineCredentialFile) -> (r:
    ConfirmCredentialRequest)
    ensures
        r.user_id == user_id,
        r.machine_id == credential.machine_id,
        r.credential_version == credential.credential_version,
{
    ConfirmCredentialRequest {
        user_id,
        machine_id: credential.machine_id.clone(),
        credential_version: credential.credential_version,
    }
}

// ---------------------------------------------------------------------------
// Rotation
// ---------------------------------------------------------------------------
/// How a rotation goes on once the credential's status is known.
#[derive(Debug, Clone, PartialEq, Eq)]
pub enum RotationStart {
    /// No rotation is required: the credential stays as it is.
    Keep(MachineCredentialFile),
    /// A rotation is required: send the hash of a new token.
    Rotate(MachineCredentialFile),
}

/// Decides, from the credential's status, whether to rotate it.
pub fn start_rotation(credential: MachineCredentialFile, status: &CredentialStatusResponse) -> (r:
    RotationStart)
    ensures
        r == (if status.rotate_required {
            RotationStart::Rotate(credential)
        } else {
            RotationStart::Keep(credential)
        }),
{
    if status.rotate_required {
        RotationStart::Rotate(credential)
    } else {
        RotationStart::Keep(credential)
    }
}

/// The credential once a rotation was granted: the new version, the next token pending
/// confirmation, the current token still in use.
pub fn credential_after_rotate(
    credential: MachineCredentialFile,
    rotate: &RotateCredentialResponse,
    next_token: String,
    updated_at: String,
) -> (r: MachineCredentialFile)
    ensures
        r.machine_id == credential.machine_id,
        r.credential_version == rotate.credential_version,
        r.current_token == credential.current_token,
        r.next_token == Some(next_token),
        r.next_token_status matches Some(s) && s@ == "pending_confirm"@,
        r.api_base_url == credential.api_base_url,
        r.updated_at == updated_at,
{
    let mut c = credential;
    c.credential_version = rotate.credential_version;
    c.next_token = Some(next_token);
    c.next_token_status = Some(owned("pending_confirm"));
    c.updated_at = updated_at;
    c
}

/// The credential once the rotation was confirmed: the next token becomes the current one.
pub fn credential_after_confirm(credential: MachineCredentialFile, updated_at: String) -> (r: Result<
    MachineCredentialFile,
    CredentialError,
>)
    ensures
        match credential.next_token {
            Some(next) => r matches Ok(c) && c.current_token == next && c.next_token is None
                && c.next_token_status is None && c.machine_id == credential.machine_id
                && c.credential_version == credential.credential_version && c.api_base_url
                == credential.api_base_url && c.updated_at == updated_at,
            None => r == Err::<MachineCredentialFile, CredentialError>(
                CredentialError::NextTokenDisappeared,
            ),
        },
{
    let mut c = credential;
    match c.next_token {
        Some(next) => {
            c.current_token = next;
            c.next_token = None;
            c.next_token_status = None;
            c.updated_at = updated_at;
            Ok(c)
        },
        None => Err(CredentialError::NextTokenDisappeared),
    }
}

} // verus!
