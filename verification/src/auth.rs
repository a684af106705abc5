//! Token authentication and per-token rules.
use vstd::prelude::*;

use crate::config::{AuthConfig, AuthRule, PortRange};
use crate::error::{Error, Result};
use crate::protocol::{LoginMsg, NewProxyMsg, NewWorkConnMsg, PingMsg};
use crate::crypto::{AuthSigner, signature_of};
use crate::text::{cat2, cat3, decimal, decimal_string, eq_ascii_nocase, eq_ignore_ascii_case, ends_with, has_prefix, has_suffix, is_blank, lowercase, starts_with, str_eq, string_from, to_lowercase, trim, trim_end_char, trim_end_char_str, trim_str};

verus! {

/// The checks a server runs on logins, work connections, heartbeats and proxy
/// registrations.
pub trait Authenticator {
    fn verify_login(&self, msg: &LoginMsg, now: i64) -> Result<()>;

    fn verify_new_work_conn(&self, msg: &NewWorkConnMsg) -> Result<()>;

    fn verify_ping(&self, msg: &PingMsg) -> Result<()>;

    fn authorize_proxy(&self, privilege_key: &str, pool_count: u32, msg: &NewProxyMsg) -> Result<
        (),
    >;
}

/// Authentication by shared token, with further accepted tokens and rules.
pub struct TokenAuth {
    token: String,
    additional_tokens: Vec<String>,
    rules: Vec<AuthRule>,
}

/// `port` lies in one of `ranges`: equal to its `single` port when that is
/// set, else between `start` and `end`.
pub open spec fn port_in(port: u16, ranges: Seq<PortRange>) -> bool {
    exists|i: int|
        0 <= i < ranges.len() && #[trigger] port_in_range(port, ranges[i])
}

/// `port` lies in `r`.
pub open spec fn port_in_range(port: u16, r: PortRange) -> bool {
    if r.single > 0 {
        port == r.single
    } else {
        r.start <= port && port <= r.end
    }
}

/// A host name trimmed, without trailing dots, in lower case.
pub open spec fn normal_host(h: Seq<char>) -> Seq<char> {
    lowercase(trim_end_char(trim(h), '.'))
}

/// Some suffix in `suffixes` ends the normalised `domain`.
pub open spec fn domain_allowed(domain: Seq<char>, suffixes: Seq<String>) -> bool {
    exists|j: int|
        0 <= j < suffixes.len() && #[trigger] has_suffix(
            normal_host(domain),
            normal_host(suffixes[j]@),
        )
}

/// The first of `domains[from..]` that no suffix allows.
pub open spec fn first_disallowed(domains: Seq<String>, suffixes: Seq<String>, from: int) -> Option<
    Seq<char>,
>
    decreases domains.len() - from,
{
    if from < 0 || from >= domains.len() {
        None
    } else if !domain_allowed(domains[from]@, suffixes) {
        Some(domains[from]@)
    } else {
        first_disallowed(domains, suffixes, from + 1)
    }
}

/// Some prefix in `prefixes` starts the trimmed, lower-cased subdomain.
pub open spec fn subdomain_allowed(sub: Seq<char>, prefixes: Seq<String>) -> bool {
    exists|j: int|
        0 <= j < prefixes.len() && #[trigger] has_prefix(
            lowercase(trim(sub)),
            lowercase(trim(prefixes[j]@)),
        )
}

/// Some allowed type equals the proxy type, ignoring ASCII case.
pub open spec fn type_allowed(t: Seq<char>, types: Seq<String>) -> bool {
    exists|j: int| 0 <= j < types.len() && #[trigger] eq_ascii_nocase(types[j]@, t)
}

/// The refusal that a rule gives a login, if any.
pub open spec fn rule_login_problem(rule: AuthRule, msg: LoginMsg) -> Option<Seq<char>> {
    if rule.max_pool_count > 0 && msg.pool_count > rule.max_pool_count {
        Some(
            "pool_count "@ + decimal(msg.pool_count as nat) + " exceeds token rule max_pool_count "@
                + decimal(rule.max_pool_count as nat),
        )
    } else {
        None
    }
}

/// The refusal that a rule gives a proxy registration, if any.
pub open spec fn rule_proxy_problem(rule: AuthRule, pool_count: u32, msg: NewProxyMsg) -> Option<
    Seq<char>,
> {
    if rule.max_pool_count > 0 && pool_count > rule.max_pool_count {
        Some(
            "pool_count "@ + decimal(pool_count as nat) + " exceeds token rule max_pool_count "@
                + decimal(rule.max_pool_count as nat),
        )
    } else if rule.allow_proxy_types.len() > 0 && !type_allowed(
        msg.proxy_type@,
        rule.allow_proxy_types@,
    ) {
        Some("proxy type "@ + msg.proxy_type@ + " is not allowed for this token"@)
    } else if rule.allow_ports.len() > 0 && msg.remote_port == 0 {
        Some("this token rule requires a fixed remote_port within allowed ranges"@)
    } else if rule.allow_ports.len() > 0 && !port_in(msg.remote_port, rule.allow_ports@) {
        Some("remote_port "@ + decimal(msg.remote_port as nat) + " is not allowed for this token"@)
    } else if rule.allow_domain_suffixes.len() > 0 && first_disallowed(
        msg.custom_domains@,
        rule.allow_domain_suffixes@,
        0,
    ) is Some {
        Some(
            "domain "@ + first_disallowed(
                msg.custom_domains@,
                rule.allow_domain_suffixes@,
                0,
            )->0 + " is not allowed for this token"@,
        )
    } else if trim(msg.subdomain@).len() > 0 && rule.allow_subdomain_prefixes.len() > 0
        && !subdomain_allowed(msg.subdomain@, rule.allow_subdomain_prefixes@) {
        Some("subdomain "@ + msg.subdomain@ + " is not allowed for this token"@)
    } else {
        None
    }
}

/// How far a signed login's timestamp may lie from the server's clock, in
/// seconds.
pub const LOGIN_WINDOW_SECS: i64 = 300;

/// The text a timestamp is signed as: its decimal form, with `-` in front
/// when it is negative.
pub open spec fn timestamp_text(ts: i64) -> Seq<char> {
    if ts < 0 {
        "-"@ + decimal((0 - ts) as nat)
    } else {
        decimal(ts as nat)
    }
}

/// The text a timestamp is signed as (see `timestamp_text`).
pub fn timestamp_string(ts: i64) -> (s: String)
    ensures
        s@ == timestamp_text(ts),
{
    if ts < 0 {
        let mag: u64 = (0i128 - ts as i128) as u64;
        let d = decimal_string(mag);
        cat2("-", d.as_str())
    } else {
        decimal_string(ts as u64)
    }
}

/// The timestamp `ts` lies within the login window around `now`.
pub open spec fn within_window(now: i64, ts: i64) -> bool {
    now - ts <= LOGIN_WINDOW_SECS && ts - now <= LOGIN_WINDOW_SECS
}

/// How a refusal maps to an authentication result.
pub open spec fn auth_outcome(problem: Option<Seq<char>>, r: Result<()>) -> bool {
    match problem {
        None => r is Ok,
        Some(m) => r matches Err(Error::Auth(x)) && x@ == m,
    }
}

impl TokenAuth {
    /// The shared token.
    pub closed spec fn token(&self) -> Seq<char> {
        self.token@
    }

    /// The further accepted tokens.
    pub closed spec fn additional_tokens(&self) -> Seq<String> {
        self.additional_tokens@
    }

    /// The per-token rules, in configuration order.
    pub closed spec fn rules(&self) -> Seq<AuthRule> {
        self.rules@
    }

    /// `t` is the shared token, a further token, or the token of a rule.
    pub open spec fn known(&self, t: Seq<char>) -> bool {
        ||| t == self.token()
        ||| exists|i: int|
            0 <= i < self.additional_tokens().len() && #[trigger] self.additional_tokens()[i]@ == t
        ||| exists|i: int| 0 <= i < self.rules().len() && #[trigger] self.rules()[i].token@ == t
    }

    /// The first rule for token `t`, if any.
    pub open spec fn rule_for(&self, t: Seq<char>) -> Option<AuthRule> {
        first_rule(self.rules(), t, 0)
    }

    /// How many tokens are known: the shared one, the further ones, and
    /// those of the rules.
    pub open spec fn candidate_count(&self) -> int {
        (1 + self.additional_tokens().len() + self.rules().len()) as int
    }

    /// The known token at position `i` in that order.
    pub open spec fn candidate(&self, i: int) -> Seq<char> {
        if i == 0 {
            self.token()
        } else if i - 1 < self.additional_tokens().len() {
            self.additional_tokens()[i - 1]@
        } else {
            self.rules()[i - 1 - self.additional_tokens().len()].token@
        }
    }

    /// The first known token, from position `i` on, whose HMAC signature of
    /// `message` is `key`.
    pub open spec fn first_signer(&self, key: Seq<char>, message: Seq<char>, i: int) -> Option<Seq<char>>
        decreases self.candidate_count() - i,
    {
        if i < 0 || i >= self.candidate_count() {
            None
        } else if signature_of(self.candidate(i), message) == key {
            Some(self.candidate(i))
        } else {
            self.first_signer(key, message, i + 1)
        }
    }

    /// The token that `key` presents for `message`: the key itself when it
    /// is a known token, else the first known token that signed `message`
    /// as `key`.
    pub open spec fn resolved(&self, key: Seq<char>, message: Seq<char>) -> Option<Seq<char>> {
        if self.known(key) {
            Some(key)
        } else {
            self.first_signer(key, message, 0)
        }
    }

    /// The refusal of a login at the server's time `now`, if any: the key
    /// must present a known token; a signed key must carry a timestamp
    /// within the window; then the token's rule applies.
    pub open spec fn login_problem(&self, msg: LoginMsg, now: i64) -> Option<Seq<char>> {
        match self.resolved(msg.privilege_key@, timestamp_text(msg.timestamp)) {
            None => Some("Invalid token"@),
            Some(t) => if !self.known(msg.privilege_key@) && !within_window(now, msg.timestamp) {
                Some("Login timestamp outside the allowed window"@)
            } else {
                match self.rule_for(t) {
                    Some(rule) => rule_login_problem(rule, msg),
                    None => None,
                }
            },
        }
    }

    /// The refusal of one more connection through the proxies of a client
    /// of `token` that has `active` open, if any: its rule's
    /// `max_connections`, when set, must not be reached.
    pub open spec fn connection_problem(&self, token: Seq<char>, active: u32) -> Option<Seq<char>> {
        match self.rule_for(token) {
            Some(rule) => if rule.max_connections > 0 && active >= rule.max_connections {
                Some("connection limit "@ + decimal(rule.max_connections as nat) + " reached for this token"@)
            } else {
                None
            },
            None => None,
        }
    }

    /// The bandwidth limit of a client of `token`, in bytes a second (0:
    /// none).
    pub open spec fn bandwidth_of(&self, token: Seq<char>) -> u64 {
        match self.rule_for(token) {
            Some(rule) => rule.bandwidth_limit_bytes,
            None => 0,
        }
    }

    /// The refusal of a proxy registration, if any.
    pub open spec fn proxy_problem(&self, key: Seq<char>, pool_count: u32, msg: NewProxyMsg) -> Option<
        Seq<char>,
    > {
        if !self.known(key) {
            Some("Invalid token"@)
        } else {
            match self.rule_for(key) {
                Some(rule) => rule_proxy_problem(rule, pool_count, msg),
                None => None,
            }
        }
    }

    /// Takes the tokens and rules of `config`.
    pub fn new(config: &AuthConfig) -> (a: Self)
        ensures
            a.token() == config.token@,
            a.additional_tokens().map_values(|s: String| s@) == config.additional_tokens@.map_values(
                |s: String| s@,
            ),
            a.rules().len() == config.rules.len(),
            forall|i: int|
                0 <= i < config.rules.len() ==> same_rule(#[trigger] a.rules()[i], config.rules@[i]),
    {
        let token = string_from(config.token.as_str());
        let mut additional_tokens: Vec<String> = Vec::new();
        let mut i: usize = 0;
        while i < config.additional_tokens.len()
            invariant
                i <= config.additional_tokens.len(),
                additional_tokens@.map_values(|s: String| s@) == config.additional_tokens@.take(
                    i as int,
                ).map_values(|s: String| s@),
            decreases config.additional_tokens.len() - i,
        {
            let t = string_from(config.additional_tokens[i].as_str());
            let ghost before = additional_tokens@;
            additional_tokens.push(t);
            assert(additional_tokens@.map_values(|s: String| s@) =~= before.map_values(
                |s: String| s@,
            ).push(t@));
            assert(config.additional_tokens@.take(i + 1).map_values(|s: String| s@)
                =~= config.additional_tokens@.take(i as int).map_values(|s: String| s@).push(
                config.additional_tokens@[i as int]@,
            ));
            assert(config.additional_tokens@.take(i + 1) == config.additional_tokens@.take(
                i as int,
            ).push(config.additional_tokens@[i as int]));
            i = i + 1;
        }
        assert(config.additional_tokens@.take(i as int) == config.additional_tokens@);
        let mut rules: Vec<AuthRule> = Vec::new();
        let mut j: usize = 0;
        while j < config.rules.len()
            invariant
                j <= config.rules.len(),
                rules.len() == j,
                forall|k: int| 0 <= k < j ==> same_rule(#[trigger] rules@[k], config.rules@[k]),
            decreases config.rules.len() - j,
        {
            rules.push(copy_rule(&config.rules[j]));
            j = j + 1;
        }
        TokenAuth { token, additional_tokens, rules }
    }

    /// Checks one more connection for a client of `token` that has
    /// `active` open (see `connection_problem`).
    pub fn authorize_connection(&self, token: &str, active: u32) -> (r: Result<()>)
        ensures
            auth_outcome(self.connection_problem(token@, active), r),
    {
        match self.matching_rule(token) {
            Some(rule) => {
                if rule.max_connections > 0 && active >= rule.max_connections {
                    let n = decimal_string(rule.max_connections as u64);
                    return Err(Error::Auth(cat3("connection limit ", n.as_str(), " reached for this token")));
                }
                Ok(())
            },
            None => Ok(()),
        }
    }

    /// The bandwidth limit of a client of `token` (see `bandwidth_of`).
    pub fn bandwidth_limit(&self, token: &str) -> (b: u64)
        ensures
            b == self.bandwidth_of(token@),
    {
        match self.matching_rule(token) {
            Some(rule) => rule.bandwidth_limit_bytes,
            None => 0,
        }
    }

    fn first_signer_of(&self, key: &str, message: &str) -> (r: Option<String>)
        ensures
            match self.first_signer(key@, message@, 0) {
                Some(t) => r matches Some(s) && s@ == t,
                None => r is None,
            },
    {
        if AuthSigner::verify(self.token.as_str(), message, key) {
            return Some(string_from(self.token.as_str()));
        }
        let mut j: usize = 0;
        while j < self.additional_tokens.len()
            invariant
                j <= self.additional_tokens.len(),
                self.first_signer(key@, message@, 0) == self.first_signer(key@, message@, 1 + j as int),
            decreases self.additional_tokens.len() - j,
        {
            assert(self.candidate(1 + j as int) == self.additional_tokens()[j as int]@);
            if AuthSigner::verify(self.additional_tokens[j].as_str(), message, key) {
                return Some(string_from(self.additional_tokens[j].as_str()));
            }
            j = j + 1;
        }
        let mut k: usize = 0;
        while k < self.rules.len()
            invariant
                k <= self.rules.len(),
                j == self.additional_tokens.len(),
                self.first_signer(key@, message@, 0) == self.first_signer(
                    key@,
                    message@,
                    1 + j + k as int,
                ),
            decreases self.rules.len() - k,
        {
            assert(self.candidate(1 + j + k as int) == self.rules()[k as int].token@);
            if AuthSigner::verify(self.rules[k].token.as_str(), message, key) {
                return Some(string_from(self.rules[k].token.as_str()));
            }
            k = k + 1;
        }
        None
    }

    /// The token that `key` presents for `message` (see `resolved`).
    pub fn resolve_key(&self, key: &str, message: &str) -> (r: Option<String>)
        ensures
            match self.resolved(key@, message@) {
                Some(t) => r matches Some(s) && s@ == t,
                None => r is None,
            },
    {
        if self.is_known_token(key) {
            return Some(string_from(key));
        }
        self.first_signer_of(key, message)
    }

    fn is_known_token(&self, token: &str) -> (b: bool)
        ensures
            b == self.known(token@),
    {
        if str_eq(self.token.as_str(), token) {
            return true;
        }
        let mut i: usize = 0;
        while i < self.additional_tokens.len()
            invariant
                i <= self.additional_tokens.len(),
                forall|k: int| 0 <= k < i ==> self.additional_tokens@[k]@ != token@,
            decreases self.additional_tokens.len() - i,
        {
            if str_eq(self.additional_tokens[i].as_str(), token) {
                assert(self.additional_tokens()[i as int]@ == token@);
                return true;
            }
            i = i + 1;
        }
        let mut j: usize = 0;
        while j < self.rules.len()
            invariant
                j <= self.rules.len(),
                forall|k: int| 0 <= k < j ==> self.rules@[k].token@ != token@,
            decreases self.rules.len() - j,
        {
            if str_eq(self.rules[j].token.as_str(), token) {
                assert(self.rules()[j as int].token@ == token@);
                return true;
            }
            j = j + 1;
        }
        false
    }

    fn matching_rule(&self, token: &str) -> (r: Option<&AuthRule>)
        ensures
            match self.rule_for(token@) {
                Some(rule) => r == Some(&rule),
                None => r is None,
            },
    {
        let mut j: usize = 0;
        while j < self.rules.len()
            invariant
                j <= self.rules.len(),
                first_rule(self.rules@, token@, 0) == first_rule(self.rules@, token@, j as int),
            decreases self.rules.len() - j,
        {
            if str_eq(self.rules[j].token.as_str(), token) {
                return Some(&self.rules[j]);
            }
            j = j + 1;
        }
        None
    }

    fn validate_rule_login(&self, rule: &AuthRule, msg: &LoginMsg) -> (r: Result<()>)
        ensures
            auth_outcome(rule_login_problem(*rule, *msg), r),
    {
        if rule.max_pool_count > 0 && msg.pool_count > rule.max_pool_count {
            return Err(Error::Auth(pool_count_message(msg.pool_count, rule.max_pool_count)));
        }
        Ok(())
    }

    fn validate_rule_proxy(&self, rule: &AuthRule, pool_count: u32, msg: &NewProxyMsg) -> (r:
        Result<()>)
        ensures
            auth_outcome(rule_proxy_problem(*rule, pool_count, *msg), r),
    {
        if rule.max_pool_count > 0 && pool_count > rule.max_pool_count {
            return Err(Error::Auth(pool_count_message(pool_count, rule.max_pool_count)));
        }
        if rule.allow_proxy_types.len() > 0 && !any_type_matches(
            &rule.allow_proxy_types,
            msg.proxy_type.as_str(),
        ) {
            return Err(
                Error::Auth(
                    cat3("proxy type ", msg.proxy_type.as_str(), " is not allowed for this token"),
                ),
            );
        }
        if rule.allow_ports.len() > 0 {
            if msg.remote_port == 0 {
                return Err(
                    Error::Auth(
                        string_from(
                            "this token rule requires a fixed remote_port within allowed ranges",
                        ),
                    ),
                );
            }
            if !port_in_ranges(msg.remote_port, rule.allow_ports.as_slice()) {
                let port = decimal_string(msg.remote_port as u64);
                return Err(
                    Error::Auth(
                        cat3("remote_port ", port.as_str(), " is not allowed for this token"),
                    ),
                );
            }
        }
        if rule.allow_domain_suffixes.len() > 0 {
            let mut i: usize = 0;
            #[verifier::loop_isolation(false)]
            while i < msg.custom_domains.len()
                invariant
                    i <= msg.custom_domains.len(),
                    first_disallowed(msg.custom_domains@, rule.allow_domain_suffixes@, 0)
                        == first_disallowed(
                        msg.custom_domains@,
                        rule.allow_domain_suffixes@,
                        i as int,
                    ),
                decreases msg.custom_domains.len() - i,
            {
                let domain = msg.custom_domains[i].as_str();
                if !domain_in_suffixes(domain, &rule.allow_domain_suffixes) {
                    assert(first_disallowed(
                        msg.custom_domains@,
                        rule.allow_domain_suffixes@,
                        i as int,
                    ) == Some(domain@));
                    return Err(
                        Error::Auth(cat3("domain ", domain, " is not allowed for this token")),
                    );
                }
                i = i + 1;
            }
        }
        if !is_blank(msg.subdomain.as_str()) && rule.allow_subdomain_prefixes.len() > 0 {
            if !subdomain_in_prefixes(msg.subdomain.as_str(), &rule.allow_subdomain_prefixes) {
                return Err(
                    Error::Auth(
                        cat3("subdomain ", msg.subdomain.as_str(), " is not allowed for this token"),
                    ),
                );
            }
        }
        Ok(())
    }
}

/// The first rule of `rules[from..]` for token `t`.
pub open spec fn first_rule(rules: Seq<AuthRule>, t: Seq<char>, from: int) -> Option<AuthRule>
    decreases rules.len() - from,
{
    if from < 0 || from >= rules.len() {
        None
    } else if rules[from].token@ == t {
        Some(rules[from])
    } else {
        first_rule(rules, t, from + 1)
    }
}

/// Two rules hold the same limits.
pub open spec fn same_rule(a: AuthRule, b: AuthRule) -> bool {
    &&& a.token@ == b.token@
    &&& a.allow_proxy_types@.map_values(|s: String| s@) == b.allow_proxy_types@.map_values(
        |s: String| s@,
    )
    &&& a.allow_ports@ == b.allow_ports@
    &&& a.allow_domain_suffixes@.map_values(|s: String| s@) == b.allow_domain_suffixes@.map_values(
        |s: String| s@,
    )
    &&& a.allow_subdomain_prefixes@.map_values(|s: String| s@)
        == b.allow_subdomain_prefixes@.map_values(|s: String| s@)
    &&& a.max_pool_count == b.max_pool_count
    &&& a.max_connections == b.max_connections
    &&& a.bandwidth_limit_bytes == b.bandwidth_limit_bytes
}

fn copy_strings(v: &Vec<String>) -> (out: Vec<String>)
    ensures
        out@.map_values(|s: String| s@) == v@.map_values(|s: String| s@),
{
    let mut out: Vec<String> = Vec::new();
    let mut i: usize = 0;
    while i < v.len()
        invariant
            i <= v.len(),
            out@.map_values(|s: String| s@) == v@.take(i as int).map_values(|s: String| s@),
        decreases v.len() - i,
    {
        let t = string_from(v[i].as_str());
        let ghost before = out@;
        out.push(t);
        assert(out@.map_values(|s: String| s@) =~= before.map_values(|s: String| s@).push(t@));
        assert(v@.take(i + 1).map_values(|s: String| s@) =~= v@.take(i as int).map_values(
            |s: String| s@,
        ).push(v@[i as int]@));
        i = i + 1;
    }
    assert(v@.take(i as int) == v@);
    out
}

fn copy_rule(r: &AuthRule) -> (out: AuthRule)
    ensures
        same_rule(out, *r),
{
    let mut ports: Vec<PortRange> = Vec::new();
    let mut i: usize = 0;
    while i < r.allow_ports.len()
        invariant
            i <= r.allow_ports.len(),
            ports@ == r.allow_ports@.take(i as int),
        decreases r.allow_ports.len() - i,
    {
        let p = r.allow_ports[i];
        ports.push(PortRange { start: p.start, end: p.end, single: p.single });
        assert(r.allow_ports@.take(i + 1) == r.allow_ports@.take(i as int).push(r.allow_ports@[i as int]));
        i = i + 1;
    }
    assert(r.allow_ports@.take(i as int) == r.allow_ports@);
    AuthRule {
        token: string_from(r.token.as_str()),
        allow_proxy_types: copy_strings(&r.allow_proxy_types),
        allow_ports: ports,
        allow_domain_suffixes: copy_strings(&r.allow_domain_suffixes),
        allow_subdomain_prefixes: copy_strings(&r.allow_subdomain_prefixes),
        max_pool_count: r.max_pool_count,
        max_connections: r.max_connections,
        bandwidth_limit_bytes: r.bandwidth_limit_bytes,
    }
}

fn pool_count_message(pool_count: u32, max: u32) -> (m: String)
    ensures
        m@ == "pool_count "@ + decimal(pool_count as nat) + " exceeds token rule max_pool_count "@
            + decimal(max as nat),
{
    let a = decimal_string(pool_count as u64);
    let b = decimal_string(max as u64);
    let mut m = cat3("pool_count ", a.as_str(), " exceeds token rule max_pool_count ");
    m.append(b.as_str());
    m
}

fn any_type_matches(types: &Vec<String>, t: &str) -> (b: bool)
    ensures
        b == type_allowed(t@, types@),
{
    let mut j: usize = 0;
    while j < types.len()
        invariant
            j <= types.len(),
            forall|k: int| 0 <= k < j ==> !eq_ascii_nocase(#[trigger] types@[k]@, t@),
        decreases types.len() - j,
    {
        if eq_ignore_ascii_case(types[j].as_str(), t) {
            return true;
        }
        j = j + 1;
    }
    false
}

fn domain_in_suffixes(domain: &str, suffixes: &Vec<String>) -> (b: bool)
    ensures
        b == domain_allowed(domain@, suffixes@),
{
    let normalized = normalize_host(domain);
    let mut j: usize = 0;
    while j < suffixes.len()
        invariant
            j <= suffixes.len(),
            normalized@ == normal_host(domain@),
            forall|k: int|
                0 <= k < j ==> !has_suffix(normal_host(domain@), normal_host(#[trigger] suffixes@[k]@)),
        decreases suffixes.len() - j,
    {
        let s = normalize_host(suffixes[j].as_str());
        if ends_with(normalized.as_str(), s.as_str()) {
            return true;
        }
        j = j + 1;
    }
    false
}

fn subdomain_in_prefixes(sub: &str, prefixes: &Vec<String>) -> (b: bool)
    ensures
        b == subdomain_allowed(sub@, prefixes@),
{
    let t = trim_str(sub);
    let lowered = to_lowercase(t.as_str());
    let mut j: usize = 0;
    while j < prefixes.len()
        invariant
            j <= prefixes.len(),
            lowered@ == lowercase(trim(sub@)),
            forall|k: int|
                0 <= k < j ==> !has_prefix(
                    lowercase(trim(sub@)),
                    lowercase(trim(#[trigger] prefixes@[k]@)),
                ),
        decreases prefixes.len() - j,
    {
        let pt = trim_str(prefixes[j].as_str());
        let p = to_lowercase(pt.as_str());
        if starts_with(lowered.as_str(), p.as_str()) {
            return true;
        }
        j = j + 1;
    }
    false
}

/// Whether `port` lies in one of `ranges`.
pub fn port_in_ranges(port: u16, ranges: &[PortRange]) -> (b: bool)
    ensures
        b == port_in(port, ranges@),
{
    let mut i: usize = 0;
    while i < ranges.len()
        invariant
            i <= ranges.len(),
            forall|k: int| 0 <= k < i ==> !port_in_range(port, #[trigger] ranges@[k]),
        decreases ranges.len() - i,
    {
        let r = ranges[i];
        let hit = if r.single > 0 {
            port == r.single
        } else {
            port >= r.start && port <= r.end
        };
        if hit {
            assert(port_in_range(port, ranges@[i as int]));
            return true;
        }
        i = i + 1;
    }
    false
}

/// A host name trimmed, without trailing dots, in lower case.
pub fn normalize_host(host: &str) -> (out: String)
    ensures
        out@ == normal_host(host@),
{
    let t = trim_str(host);
    let u = trim_end_char_str(t.as_str(), '.');
    to_lowercase(u.as_str())
}

impl Authenticator for TokenAuth {
    /// Accepts a key that is a known token, or the HMAC signature of the
    /// login's timestamp under a known token when the timestamp lies within
    /// the window around `now`; then applies that token's rule, if any.
    fn verify_login(&self, msg: &LoginMsg, now: i64) -> (r: Result<()>)
        ensures
            auth_outcome(self.login_problem(*msg, now), r),
    {
        let ts = timestamp_string(msg.timestamp);
        let token = match self.resolve_key(msg.privilege_key.as_str(), ts.as_str()) {
            Some(t) => t,
            None => return Err(Error::Auth(string_from("Invalid token"))),
        };
        if !self.is_known_token(msg.privilege_key.as_str()) {
            let d = (now as i128) - (msg.timestamp as i128);
            if d > LOGIN_WINDOW_SECS as i128 || 0 - d > LOGIN_WINDOW_SECS as i128 {
                return Err(Error::Auth(string_from("Login timestamp outside the allowed window")));
            }
        }
        if let Some(rule) = self.matching_rule(token.as_str()) {
            return self.validate_rule_login(rule, msg);
        }
        Ok(())
    }

    /// Accepts a work connection whose key is a known token or the HMAC
    /// signature of its run id under a known token.
    fn verify_new_work_conn(&self, msg: &NewWorkConnMsg) -> (r: Result<()>)
        ensures
            if self.resolved(msg.privilege_key@, msg.run_id@) is Some {
                r is Ok
            } else {
                r matches Err(Error::Auth(x)) && x@ == "Invalid token"@
            },
    {
        if self.resolve_key(msg.privilege_key.as_str(), msg.run_id.as_str()).is_none() {
            return Err(Error::Auth(string_from("Invalid token")));
        }
        Ok(())
    }

    /// Heartbeats need no credentials.
    fn verify_ping(&self, msg: &PingMsg) -> (r: Result<()>)
        ensures
            r is Ok,
    {
        Ok(())
    }

    /// Refuses unknown tokens, then applies the token's rule, if any, to the
    /// registration.
    fn authorize_proxy(&self, privilege_key: &str, pool_count: u32, msg: &NewProxyMsg) -> (r:
        Result<()>)
        ensures
            auth_outcome(self.proxy_problem(privilege_key@, pool_count, *msg), r),
    {
        if !self.is_known_token(privilege_key) {
            return Err(Error::Auth(string_from("Invalid token")));
        }
        if let Some(rule) = self.matching_rule(privilege_key) {
            return self.validate_rule_proxy(rule, pool_count, msg);
        }
        Ok(())
    }
}

/// The authenticator for `config.method`; only `"token"` is implemented.
pub fn create_authenticator(config: &AuthConfig) -> (r: Result<TokenAuth>)
    ensures
        config.method@ == "token"@ <==> r is Ok,
        r matches Ok(a) ==> a.token() == config.token@,
        r matches Err(e) ==> e matches Error::Config(x) && x@ == "unsupported auth.method: "@
            + config.method@,
{
    if str_eq(config.method.as_str(), "token") {
        Ok(TokenAuth::new(config))
    } else {
        Err(Error::Config(cat2("unsupported auth.method: ", config.method.as_str())))
    }
}

/// Law: when a rule lists domain suffixes, a registration is refused
/// whenever one of its custom domains, at any position, ends (once
/// normalised) with none of the normalised suffixes; and a registration
/// whose custom domains all end with some suffix is never refused for a
/// domain.
pub proof fn law_every_custom_domain_checked(rule: AuthRule, pool_count: u32, msg: NewProxyMsg, i: int)
    requires
        rule.allow_domain_suffixes.len() > 0,
        0 <= i < msg.custom_domains.len(),
        forall|j: int|
            0 <= j < rule.allow_domain_suffixes@.len() ==> !#[trigger] has_suffix(
                normal_host(msg.custom_domains@[i]@),
                normal_host(rule.allow_domain_suffixes@[j]@),
            ),
    ensures
        rule_proxy_problem(rule, pool_count, msg) is Some,
{
    let d = msg.custom_domains@[i]@;
    assert(!domain_allowed(d, rule.allow_domain_suffixes@));
    lemma_first_disallowed_from(msg.custom_domains@, rule.allow_domain_suffixes@, 0, i);
}

/// A domain at `i` that no suffix allows is found by the search from any
/// `from <= i`.
proof fn lemma_first_disallowed_from(domains: Seq<String>, suffixes: Seq<String>, from: int, i: int)
    requires
        0 <= from <= i < domains.len(),
        !domain_allowed(domains[i]@, suffixes),
    ensures
        first_disallowed(domains, suffixes, from) is Some,
    decreases i - from,
{
    if from < i {
        lemma_first_disallowed_from(domains, suffixes, from + 1, i);
    }
}

/// Law: when every custom domain from `from` on ends (once normalised)
/// with some normalised suffix (for domain `k`, suffix `pick[k]`), the
/// search for a refused domain finds none.
pub proof fn law_allowed_domains_pass(domains: Seq<String>, suffixes: Seq<String>, pick: Seq<int>, from: int)
    requires
        0 <= from,
        pick.len() == domains.len(),
        forall|k: int|
            from <= k < domains.len() ==> 0 <= #[trigger] pick[k] < suffixes.len() && has_suffix(
                normal_host(domains[k]@),
                normal_host(suffixes[pick[k]]@),
            ),
    ensures
        first_disallowed(domains, suffixes, from) is None,
    decreases domains.len() - from,
{
    if from < domains.len() {
        assert(has_suffix(normal_host(domains[from]@), normal_host(suffixes[pick[from]]@)));
        assert(domain_allowed(domains[from]@, suffixes));
        law_allowed_domains_pass(domains, suffixes, pick, from + 1);
    }
}

} // verus!
