//! Service configuration: the authentication mode, the loopback rule of
//! trusted-local mode, and the bind address.
use vstd::prelude::*;

use crate::text::{ci_eq, ci_equal, contains_char, decimal, eq_ignore_case, push_decimal, trim, trim_char, trim_matches, trim_str};

verus! {

/// How requests are authenticated.
#[derive(Debug, Clone, Copy, PartialEq, Eq, Structural)]
pub enum AuthMode {
    TrustedLocal,
    Token,
}

impl AuthMode {
    /// The name of the mode in the protocol.
    pub fn as_contract_mode(self) -> (r: &'static str)
        ensures
            r@ == (match self {
                AuthMode::TrustedLocal => "trusted_local"@,
                AuthMode::Token => "token"@,
            }),
    {
        match self {
            AuthMode::TrustedLocal => "trusted_local",
            AuthMode::Token => "token",
        }
    }

    /// Reads a mode name, trimmed and without regard to ASCII case.
    pub fn parse(value: &str) -> (r: Result<AuthMode, String>)
        ensures
            (ci_equal(trim(value@), "trusted_local"@) || ci_equal(trim(value@), "trusted-local"@)
                || ci_equal(trim(value@), "local"@)) ==> r == Ok::<AuthMode, String>(AuthMode::TrustedLocal),
            ci_equal(trim(value@), "token"@) ==> r == Ok::<AuthMode, String>(AuthMode::Token),
            r is Err <==> !(ci_equal(trim(value@), "trusted_local"@) || ci_equal(trim(value@), "trusted-local"@)
                || ci_equal(trim(value@), "local"@) || ci_equal(trim(value@), "token"@)),
    {
        let v = trim_str(value);
        proof {
            reveal_strlit("token");
            reveal_strlit("local");
            reveal_strlit("trusted_local");
            reveal_strlit("trusted-local");
            if ci_equal(trim(value@), "token"@) && ci_equal(trim(value@), "local"@) {
                assert(ci_eq(trim(value@)[0], 't') && ci_eq(trim(value@)[0], 'l'));
            }
        }
        if eq_ignore_case(v, "trusted_local") || eq_ignore_case(v, "trusted-local") || eq_ignore_case(v, "local") {
            Ok(AuthMode::TrustedLocal)
        } else if eq_ignore_case(v, "token") {
            Ok(AuthMode::Token)
        } else {
            let mut m = "invalid auth mode '".to_owned();
            m.append(v);
            m.append("'. expected one of: trusted_local, token");
            Err(m)
        }
    }
}

/// The service configuration.
#[derive(Debug, Clone)]
pub struct ApiConfig {
    pub host: String,
    pub port: u16,
    pub served_by: String,
    pub auth_mode: AuthMode,
    pub token: Option<String>,
    pub idempotency_ttl_secs: u64,
    pub workspace_root: String,
    pub loop_process_interval_ms: u64,
    pub ralph_command: String,
}

/// The host with brackets and surrounding space removed, before case folding.
pub open spec fn bare_host(host: Seq<char>) -> Seq<char> {
    trim_matches(trim_matches(trim(host), '['), ']')
}

/// Whether a bind host is a loopback address.
pub open spec fn loopback(host: Seq<char>) -> bool {
    let h = bare_host(host);
    ci_equal(h, "127.0.0.1"@) || ci_equal(h, "localhost"@) || ci_equal(h, "::1"@)
}

/// Whether the configuration is acceptable.
pub open spec fn config_valid(c: ApiConfig) -> bool {
    &&& (c.auth_mode == AuthMode::Token ==> (c.token matches Some(t) && trim(t@).len() > 0))
    &&& (c.auth_mode == AuthMode::TrustedLocal ==> loopback(c.host@))
}

/// Whether `host` names the loopback interface (`127.0.0.1`, `localhost`,
/// `::1`, bracketed or not).
pub fn is_loopback_host(host: &str) -> (r: bool)
    ensures
        r == loopback(host@),
{
    let h = trim_char(trim_char(trim_str(host), '['), ']');
    eq_ignore_case(h, "127.0.0.1") || eq_ignore_case(h, "localhost") || eq_ignore_case(h, "::1")
}

impl ApiConfig {
    /// The defaults: loopback on port 3000, trusted-local, one hour of
    /// idempotency retention.
    pub fn new(workspace_root: String) -> (r: ApiConfig)
        ensures
            r.host@ == "127.0.0.1"@,
            r.port == 3000,
            r.served_by@ == "ralph-api"@,
            r.auth_mode == AuthMode::TrustedLocal,
            r.token is None,
            r.idempotency_ttl_secs == 3600,
            r.workspace_root == workspace_root,
            r.loop_process_interval_ms == 30000,
            r.ralph_command@ == "ralph"@,
    {
        ApiConfig {
            host: "127.0.0.1".to_owned(),
            port: 3000,
            served_by: "ralph-api".to_owned(),
            auth_mode: AuthMode::TrustedLocal,
            token: None,
            idempotency_ttl_secs: 3600,
            workspace_root,
            loop_process_interval_ms: 30000,
            ralph_command: "ralph".to_owned(),
        }
    }

    /// Token mode needs a token; trusted-local mode needs a loopback host.
    pub fn validate(&self) -> (r: Result<(), String>)
        ensures
            r is Ok <==> config_valid(*self),
    {
        if self.auth_mode == AuthMode::Token {
            let missing = match &self.token {
                Some(t) => trim_str(t.as_str()).unicode_len() == 0,
                None => true,
            };
            if missing {
                return Err("RALPH_API_TOKEN must be configured when auth mode is token".to_owned());
            }
        }
        if self.auth_mode == AuthMode::TrustedLocal && !is_loopback_host(self.host.as_str()) {
            return Err(
                "trusted_local auth mode requires loopback host; set RALPH_API_HOST to 127.0.0.1/::1 (or localhost) or switch to token auth".to_owned(),
            );
        }
        Ok(())
    }
}

/// The socket address text for a host and port; an IPv6 literal is
/// bracketed unless it already is.
pub open spec fn bind_addr(host: Seq<char>, port: u16) -> Seq<char> {
    let t = trim(host);
    if t.len() > 0 && t[0] == '[' {
        t + ":"@ + decimal(port as nat)
    } else if t.contains(':') {
        "["@ + t + "]:"@ + decimal(port as nat)
    } else {
        t + ":"@ + decimal(port as nat)
    }
}

pub fn bind_addr_string(host: &str, port: u16) -> (r: String)
    ensures
        r@ == bind_addr(host@, port),
{
    let t = trim_str(host);
    let mut r = String::new();
    if t.unicode_len() > 0 && t.get_char(0) == '[' {
        r.append(t);
        r.append(":");
    } else if contains_char(t, ':') {
        r.append("[");
        r.append(t);
        r.append("]:");
    } else {
        r.append(t);
        r.append(":");
    }
    push_decimal(&mut r, port as u64);
    r
}

/// What `config.update` asks for.
#[derive(Debug, Clone)]
pub struct ConfigUpdateParams {
    pub content: String,
}

/// The configuration file of a workspace.
#[derive(Debug, Clone)]
pub struct ConfigDomain {
    config_path: String,
}

impl ConfigDomain {
    pub closed spec fn spec_path(&self) -> Seq<char> {
        self.config_path@
    }

    /// The file is `<workspace>/ralph.yml`.
    pub fn new(workspace_root: &str) -> (r: ConfigDomain)
        ensures
            r.spec_path() == workspace_root@ + "/ralph.yml"@,
    {
        let mut p = workspace_root.to_owned();
        p.append("/ralph.yml");
        ConfigDomain { config_path: p }
    }

    pub fn config_path(&self) -> (r: &String)
        ensures
            r@ == self.spec_path(),
    {
        &self.config_path
    }

    /// The temporary file an update writes before renaming it into place:
    /// `<path>.tmp-<pid>-<nanos>`.
    pub fn temp_path(&self, pid: u32, nanos: u64) -> (r: String)
        ensures
            r@ == self.spec_path() + ".tmp-"@ + decimal(pid as nat) + "-"@ + decimal(nanos as nat),
    {
        let mut p = self.config_path.clone();
        p.append(".tmp-");
        push_decimal(&mut p, pid as u64);
        p.append("-");
        push_decimal(&mut p, nanos);
        p
    }
}

} // verus!
