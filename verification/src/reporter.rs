//! Where an agent reports to and fetches its policies from, and how it authenticates there.
use vstd::prelude::*;

use crate::text::{concat2, i64_to_decimal, owned, push_str, signed_decimal, strip_trailing, trim_end_char};

verus! {

/// The web service an agent talks to, and who the agent is there.
#[derive(Debug, Clone, PartialEq, Eq)]
pub struct ReportTarget {
    pub web_base_url: String,
    pub user_id: i32,
    pub machine_id: String,
    pub auth: AgentApiAuth,
}

/// How an agent authenticates: with its machine token, or with the legacy shared token.
#[derive(Debug, Clone, PartialEq, Eq)]
pub enum AgentApiAuth {
    MachineToken { token: String, credential_version: i64 },
    LegacyInternalToken(String),
}

/// The internal API path for one machine of one user, under the base URL.
pub open spec fn machine_api_url(t: ReportTarget, tail: Seq<char>) -> Seq<char> {
    strip_trailing(t.web_base_url@, '/') + "/api/internal/users/"@ + signed_decimal(t.user_id as int)
        + "/machines/"@ + t.machine_id@ + tail
}

/// The request headers that carry an agent's credentials.
pub open spec fn auth_header_views(auth: AgentApiAuth) -> Seq<(Seq<char>, Seq<char>)> {
    match auth {
        AgentApiAuth::MachineToken { token, credential_version } => seq![
            ("Authorization"@, "Bearer "@ + token@),
            ("X-Credential-Version"@, signed_decimal(credential_version as int)),
        ],
        AgentApiAuth::LegacyInternalToken(token) => seq![("X-Internal-Auth"@, token@)],
    }
}

pub open spec fn header_views(h: Seq<(String, String)>) -> Seq<(Seq<char>, Seq<char>)> {
    h.map_values(|p: (String, String)| (p.0@, p.1@))
}

impl ReportTarget {
    fn machine_url(&self, tail: &str) -> (r: String)
        ensures
            r@ == machine_api_url(*self, tail@),
    {
        let mut r = trim_end_char(self.web_base_url.as_str(), '/');
        push_str(&mut r, "/api/internal/users/");
        let user = i64_to_decimal(self.user_id as i64);
        push_str(&mut r, user.as_str());
        push_str(&mut r, "/machines/");
        push_str(&mut r, self.machine_id.as_str());
        push_str(&mut r, tail);
        r
    }

    /// Where the runtime report is posted.
    pub fn endpoint(&self) -> (r: String)
        ensures
            r@ == machine_api_url(*self, "/gateway-report"@),
    {
        self.machine_url("/gateway-report")
    }

    /// Where the device policies are fetched from.
    pub fn device_policies_endpoint(&self) -> (r: String)
        ensures
            r@ == machine_api_url(*self, "/gateway-policies"@),
    {
        self.machine_url("/gateway-policies")
    }

    /// The headers each request to the target carries, name first.
    pub fn auth_headers(&self) -> (r: Vec<(String, String)>)
        ensures
            header_views(r@) == auth_header_views(self.auth),
    {
        let mut r: Vec<(String, String)> = Vec::new();
        match &self.auth {
            AgentApiAuth::MachineToken { token, credential_version } => {
                r.push((owned("Authorization"), concat2("Bearer ", token.as_str())));
                r.push((owned("X-Credential-Version"), i64_to_decimal(*credential_version)));
            },
            AgentApiAuth::LegacyInternalToken(token) => {
                r.push((owned("X-Internal-Auth"), token.clone()));
            },
        }
        assert(header_views(r@) =~= auth_header_views(self.auth));
        r
    }
}

} // verus!
