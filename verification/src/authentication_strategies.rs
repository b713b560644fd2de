//! Upstream credential strategies: anonymous, HTTP Basic, and bearer
//! token, with the bearer challenge-response token flow.
//!
//! The network itself stays outside: a strategy decides what decoration
//! an outbound request carries, whether re-authentication is due at a
//! given time, and how a token endpoint's response changes the state.

use vstd::prelude::*;
use vstd::seq_lib::*;
use vstd::string::StrSliceExecFns;
use vstd::string::StringExecFns;
use crate::client::DockerClientError;
use crate::helpers::str_eq;

verus! {

// ------------------------------------------------------------------
// Request decoration
// ------------------------------------------------------------------

/// The credentials an outbound request is stamped with.
pub enum RequestDecoration {
    NoAuth,
    Basic { username: String, password: Option<String> },
    Bearer { token: String },
}

// ------------------------------------------------------------------
// Anonymous
// ------------------------------------------------------------------

/// No credentials at all: adopted when the registry root answers 200
/// to an unauthenticated probe.
pub struct AnonymousAuthStrategy;

impl AnonymousAuthStrategy {
    /// Anonymous requests carry nothing.
    pub fn inject_authentication(&self) -> (r: RequestDecoration)
        ensures
            r matches RequestDecoration::NoAuth,
    {
        RequestDecoration::NoAuth
    }

    /// Anonymous access never goes stale.
    pub fn needs_reauthenticating(&self) -> (r: bool)
        ensures
            r == false,
    {
        false
    }

    /// Nothing to do.
    pub fn execute_authentication(&mut self) -> (r: Result<(), DockerClientError>)
        ensures
            r is Ok,
    {
        Ok(())
    }
}

// ------------------------------------------------------------------
// HTTP Basic
// ------------------------------------------------------------------

/// A username and optional password sent with every request.
pub struct HttpBasicAuthStrategy {
    pub username: String,
    pub password: Option<String>,
}

impl HttpBasicAuthStrategy {
    pub fn new(username: &str, password: Option<&str>) -> (r: Self)
        ensures
            r.username@ == username@,
            match (r.password, password) {
                (Some(a), Some(b)) => a@ == b@,
                (None, None) => true,
                _ => false,
            },
    {
        HttpBasicAuthStrategy {
            username: username.to_owned(),
            password: match password {
                Some(p) => Some(p.to_owned()),
                None => None,
            },
        }
    }

    /// Basic requests carry the stored username and password.
    pub fn inject_authentication(&self) -> (r: RequestDecoration)
        ensures
            r matches RequestDecoration::Basic { username, password } && username@
                == self.username@ && password == self.password,
    {
        RequestDecoration::Basic {
            username: self.username.clone(),
            password: match &self.password {
                Some(p) => Some(p.clone()),
                None => None,
            },
        }
    }

    /// Basic credentials never go stale.
    pub fn needs_reauthenticating(&self) -> (r: bool)
        ensures
            r == false,
    {
        false
    }

    /// Stores the supplied credentials; a missing username is a
    /// credentials failure and leaves the state untouched.
    pub fn execute_authentication(&mut self, username: Option<&str>, password: Option<&str>) -> (r:
        Result<(), DockerClientError>)
        ensures
            match r {
                Ok(_) => {
                    &&& username matches Some(u) && final(self).username@ == u@
                    &&& (match (final(self).password, password) {
                        (Some(a), Some(b)) => a@ == b@,
                        (None, None) => true,
                        _ => false,
                    })
                },
                Err(e) => {
                    &&& username is None
                    &&& e matches DockerClientError::BadAuthenticationCredentials
                    &&& *final(self) == *old(self)
                },
            },
    {
        match username {
            Some(u) => {
                self.username = u.to_owned();
                self.password = match password {
                    Some(p) => Some(p.to_owned()),
                    None => None,
                };
                Ok(())
            },
            None => Err(DockerClientError::BadAuthenticationCredentials),
        }
    }
}

// ------------------------------------------------------------------
// Bearer token
// ------------------------------------------------------------------

/// What the token endpoint's JSON body carried.
pub struct TokenGrant {
    pub token: String,
    pub issued_at: Option<String>,
    pub expires_in: Option<u64>,
}

/// A planned GET of the token endpoint, with the caller's Basic
/// credentials attached when they were supplied.
pub struct TokenRequest {
    pub url: String,
    pub query: String,
    pub username: Option<String>,
    pub password: Option<String>,
}

/// What an RFC 3339 date string denotes in Unix seconds, if anything.
pub uninterp spec fn rfc3339_unix_of(s: Seq<char>) -> Option<i64>;

/// Relies on chrono's DateTime::parse_from_rfc3339, read out as Unix
/// seconds: a deterministic parse of the date string alone.
#[verifier::external_body]
fn parse_rfc3339_unix(s: &str) -> (r: Option<i64>)
    ensures
        r == rfc3339_unix_of(s@),
{
    match chrono::DateTime::parse_from_rfc3339(s) {
        Ok(d) => Some(d.timestamp()),
        Err(_) => None,
    }
}

/// Position `i` holds the first parameter named `k`.
pub open spec fn first_key_at(ps: Seq<(Seq<char>, Seq<char>)>, k: Seq<char>, i: int) -> bool {
    &&& 0 <= i < ps.len()
    &&& ps[i].0 == k
    &&& forall|j: int| 0 <= j < i ==> (#[trigger] ps[j]).0 != k
}

/// The challenge parameters that make up the token query string: all
/// but `realm` and any upstream `scope`, with our scope appended.
pub open spec fn spec_query_pairs(ps: Seq<(Seq<char>, Seq<char>)>, scope: Seq<char>) -> Seq<
    (Seq<char>, Seq<char>),
> {
    ps.filter(|p: (Seq<char>, Seq<char>)| p.0 != "realm"@ && p.0 != "scope"@).push(
        ("scope"@, scope),
    )
}

/// `key=value` pairs joined with `&`.
pub open spec fn spec_render_query(ps: Seq<(Seq<char>, Seq<char>)>) -> Seq<char>
    decreases ps.len(),
{
    if ps.len() == 0 {
        Seq::empty()
    } else if ps.len() == 1 {
        ps[0].0 + "="@ + ps[0].1
    } else {
        ps[0].0 + "="@ + ps[0].1 + "&"@ + spec_render_query(ps.drop_first())
    }
}

proof fn lemma_render_query_snoc(ps: Seq<(Seq<char>, Seq<char>)>, p: (Seq<char>, Seq<char>))
    requires
        ps.len() > 0,
    ensures
        spec_render_query(ps.push(p)) == spec_render_query(ps) + "&"@ + p.0 + "="@ + p.1,
    decreases ps.len(),
{
    if ps.len() == 1 {
        assert(ps.push(p).drop_first() =~= seq![p]);
        assert(spec_render_query(seq![p]) == p.0 + "="@ + p.1);
        assert(spec_render_query(ps.push(p)) =~= spec_render_query(ps) + "&"@ + p.0 + "="@ + p.1);
    } else {
        assert(ps.push(p).drop_first() =~= ps.drop_first().push(p));
        lemma_render_query_snoc(ps.drop_first(), p);
        assert(spec_render_query(ps.push(p)) =~= spec_render_query(ps) + "&"@ + p.0 + "="@ + p.1);
    }
}

/// Renders `key=value` pairs joined with `&`.
fn render_query(ps: &Vec<(String, String)>) -> (r: String)
    ensures
        r@ == spec_render_query(ps.deep_view()),
{
    let mut out = String::new();
    let len: usize = ps.len();
    let mut i: usize = 0;
    while i < len
        invariant
            len == ps@.len(),
            len == ps.deep_view().len(),
            i <= len,
            out@ == spec_render_query(ps.deep_view().take(i as int)),
        decreases len - i,
    {
        if i > 0 {
            out.append("&");
        }
        out.append(ps[i].0.as_str());
        out.append("=");
        out.append(ps[i].1.as_str());
        proof {
            let dv = ps.deep_view();
            assert(dv.take(i as int + 1) =~= dv.take(i as int).push(dv[i as int]));
            assert(dv[i as int] == (ps[i as int].0@, ps[i as int].1@));
            if i > 0 {
                lemma_render_query_snoc(dv.take(i as int), dv[i as int]);
            } else {
                assert(dv.take(0) =~= Seq::<(Seq<char>, Seq<char>)>::empty());
                assert(dv.take(1) =~= seq![dv[0]]);
            }
        }
        i = i + 1;
    }
    proof {
        assert(ps.deep_view().take(len as int) =~= ps.deep_view());
    }
    out
}

/// Index of the first parameter with the given key, if any.
fn find_key(ps: &Vec<(String, String)>, key: &str) -> (r: Option<usize>)
    ensures
        match r {
            Some(i) => i < ps.deep_view().len() && first_key_at(ps.deep_view(), key@, i as int),
            None => forall|j: int|
                0 <= j < ps.deep_view().len() ==> (#[trigger] ps.deep_view()[j]).0 != key@,
        },
{
    let len: usize = ps.len();
    let mut i: usize = 0;
    while i < len
        invariant
            len == ps@.len(),
            len == ps.deep_view().len(),
            i <= len,
            forall|j: int| 0 <= j < i ==> (#[trigger] ps.deep_view()[j]).0 != key@,
        decreases len - i,
    {
        proof {
            assert(ps.deep_view()[i as int] == (ps@[i as int].0@, ps@[i as int].1@));
        }
        if str_eq(ps[i].0.as_str(), key) {
            return Some(i);
        }
        i = i + 1;
    }
    None
}

/// A bearer token for one repository scope, refreshed by the token
/// endpoint flow whenever it expires.
pub struct BearerTokenAuthStrategy {
    pub token: Option<String>,
    pub created_at: i64,
    pub expires_in: u64,
    pub scope: String,
}

impl BearerTokenAuthStrategy {
    /// A fresh, not yet authenticated bearer state with the pull scope
    /// for the given repository, created at time `now`.
    pub fn new(container_repository: &str, now: i64) -> (r: Self)
        ensures
            r.token is None,
            r.created_at == now,
            r.expires_in == 0,
            r.scope@ == "repository:"@ + container_repository@ + ":pull"@,
    {
        let mut scope = "repository:".to_owned();
        scope.append(container_repository);
        scope.append(":pull");
        BearerTokenAuthStrategy { token: None, created_at: now, expires_in: 0, scope }
    }

    /// Bearer requests carry the token; there is none to carry until
    /// the flow has completed.
    pub fn inject_authentication(&self) -> (r: Result<RequestDecoration, DockerClientError>)
        ensures
            match r {
                Ok(d) => self.token matches Some(t) && d matches RequestDecoration::Bearer {
                    token,
                } && token@ == t@,
                Err(e) => self.token is None && e
                    matches DockerClientError::UninitiatedAuthentication,
            },
    {
        match &self.token {
            Some(t) => Ok(RequestDecoration::Bearer { token: t.clone() }),
            None => Err(DockerClientError::UninitiatedAuthentication),
        }
    }

    /// A bearer token is stale once its lifetime has fully elapsed.
    pub fn needs_reauthenticating(&self, now: i64) -> (r: bool)
        ensures
            r == (now - self.created_at >= self.expires_in),
    {
        (now as i128) - (self.created_at as i128) >= (self.expires_in as i128)
    }

    /// The GET of the token endpoint named by the challenge's `realm`
    /// parameter, with the remaining parameters and our scope as the
    /// query string; Basic credentials ride along exactly when the
    /// caller supplied a username. A challenge without a realm cannot
    /// be answered.
    pub fn build_token_request(
        &self,
        authentication_parameters: &Vec<(String, String)>,
        username: Option<&str>,
        password: Option<&str>,
    ) -> (r: Result<TokenRequest, DockerClientError>)
        ensures
            ({
                let ps = authentication_parameters.deep_view();
                match r {
                    Ok(t) => {
                        &&& exists|i: int| first_key_at(ps, "realm"@, i) && t.url@ == ps[i].1
                        &&& t.query@ == spec_render_query(spec_query_pairs(ps, self.scope@))
                        &&& (match (t.username, username) {
                            (Some(a), Some(b)) => a@ == b@,
                            (None, None) => true,
                            _ => false,
                        })
                        &&& (match (t.password, password) {
                            (Some(a), Some(b)) => a@ == b@,
                            (None, None) => true,
                            _ => false,
                        })
                    },
                    Err(e) => {
                        &&& forall|i: int| 0 <= i < ps.len() ==> (#[trigger] ps[i]).0 != "realm"@
                        &&& e matches DockerClientError::BadAuthenticationCredentials
                    },
                }
            }),
    {
        let ghost ps = authentication_parameters.deep_view();
        let len: usize = authentication_parameters.len();
        let realm_idx = match find_key(authentication_parameters, "realm") {
            Some(i) => i,
            None => {
                return Err(DockerClientError::BadAuthenticationCredentials);
            },
        };
        let url: &String = &authentication_parameters[realm_idx].1;
        proof {
            assert(ps[realm_idx as int] == (
                authentication_parameters@[realm_idx as int].0@,
                authentication_parameters@[realm_idx as int].1@,
            ));
        }
        let mut filtered: Vec<(String, String)> = Vec::new();
        let mut j: usize = 0;
        while j < len
            invariant
                ps == authentication_parameters.deep_view(),
                len == authentication_parameters@.len(),
                len == ps.len(),
                j <= len,
                filtered.deep_view() == ps.take(j as int).filter(
                    |p: (Seq<char>, Seq<char>)| p.0 != "realm"@ && p.0 != "scope"@,
                ),
            decreases len - j,
        {
            proof {
                assert(ps[j as int] == (
                    authentication_parameters@[j as int].0@,
                    authentication_parameters@[j as int].1@,
                ));
            }
            let keep = !str_eq(authentication_parameters[j].0.as_str(), "realm") && !str_eq(
                authentication_parameters[j].0.as_str(),
                "scope",
            );
            let ghost fpre = filtered.deep_view();
            if keep {
                filtered.push(
                    (
                        authentication_parameters[j].0.clone(),
                        authentication_parameters[j].1.clone(),
                    ),
                );
            }
            proof {
                reveal(Seq::filter);
                let pred = |p: (Seq<char>, Seq<char>)| p.0 != "realm"@ && p.0 != "scope"@;
                assert(ps.take(j as int + 1).drop_last() =~= ps.take(j as int));
                assert(ps.take(j as int + 1).last() == ps[j as int]);
                if keep {
                    assert(filtered.deep_view() =~= fpre.push(ps[j as int]));
                }
                assert(filtered.deep_view() =~= ps.take(j as int + 1).filter(pred));
            }
            j = j + 1;
        }
        let scope_pair = ("scope".to_owned(), self.scope.clone());
        let ghost fpre = filtered.deep_view();
        filtered.push(scope_pair);
        proof {
            assert(ps.take(len as int) =~= ps);
            assert(filtered.deep_view() =~= spec_query_pairs(ps, self.scope@));
        }
        let query = render_query(&filtered);
        Ok(
            TokenRequest {
                url: url.clone(),
                query,
                username: match username {
                    Some(u) => Some(u.to_owned()),
                    None => None,
                },
                password: match password {
                    Some(p) => Some(p.to_owned()),
                    None => None,
                },
            },
        )
    }

    /// Applies the token endpoint's answer: 401 is a credentials
    /// failure, any other non-200 an unexpected status, an unreadable
    /// body a transport failure, and an empty or `"unauthenticated"`
    /// token a credentials failure even under a 200; otherwise the
    /// token is adopted, its issue time defaulting to `now` and its
    /// lifetime to 60 seconds.
    pub fn execute_authentication(
        &mut self,
        status: u16,
        body: Option<TokenGrant>,
        now: i64,
    ) -> (r: Result<(), DockerClientError>)
        ensures
            ({
                match r {
                    Ok(_) => {
                        &&& status == 200
                        &&& body matches Some(g) && g.token@.len() > 0 && g.token@
                            != "unauthenticated"@ && {
                            let created = match g.issued_at {
                                Some(s) => match rfc3339_unix_of(s@) {
                                    Some(t) => t,
                                    None => now,
                                },
                                None => now,
                            };
                            let ttl = match g.expires_in {
                                Some(e) => e,
                                None => 60u64,
                            };
                            &&& final(self).token matches Some(t) && t@ == g.token@
                            &&& final(self).created_at == created
                            &&& final(self).expires_in == ttl
                            &&& final(self).scope == old(self).scope
                        }
                    },
                    Err(e) => {
                        &&& *final(self) == *old(self)
                        &&& (match e {
                            DockerClientError::BadAuthenticationCredentials => status == 401 || (
                            status == 200 && (body matches Some(g) && (g.token@.len() == 0
                                || g.token@ == "unauthenticated"@))),
                            DockerClientError::UnexpectedStatusCode(c) => c == status && status
                                != 200 && status != 401,
                            DockerClientError::ReqwestError(_) => status == 200 && body is None,
                            _ => false,
                        })
                    },
                }
            }),
    {
        if status == 401 {
            return Err(DockerClientError::BadAuthenticationCredentials);
        }
        if status != 200 {
            return Err(DockerClientError::UnexpectedStatusCode(status));
        }
        match body {
            None => Err(
                DockerClientError::ReqwestError(
                    "token endpoint body could not be read".to_owned(),
                ),
            ),
            Some(grant) => {
                if grant.token.as_str().is_empty() || str_eq(
                    grant.token.as_str(),
                    "unauthenticated",
                ) {
                    return Err(DockerClientError::BadAuthenticationCredentials);
                }
                let created: i64 = match &grant.issued_at {
                    Some(s) => match parse_rfc3339_unix(s.as_str()) {
                        Some(t) => t,
                        None => now,
                    },
                    None => now,
                };
                let ttl: u64 = match grant.expires_in {
                    Some(e) => e,
                    None => 60,
                };
                self.created_at = created;
                self.expires_in = ttl;
                self.token = Some(grant.token);
                Ok(())
            },
        }
    }
}

// ------------------------------------------------------------------
// The strategy union
// ------------------------------------------------------------------

/// Whichever strategy a client has adopted.
pub enum AuthStrategy {
    Anonymous(AnonymousAuthStrategy),
    Basic(HttpBasicAuthStrategy),
    Bearer(BearerTokenAuthStrategy),
}

/// The decoration a fully authenticated strategy stamps on requests.
pub open spec fn decorates(s: AuthStrategy, d: RequestDecoration) -> bool {
    match s {
        AuthStrategy::Anonymous(_) => d matches RequestDecoration::NoAuth,
        AuthStrategy::Basic(b) => d matches RequestDecoration::Basic { username, password }
            && username@ == b.username@ && password == b.password,
        AuthStrategy::Bearer(bt) => bt.token matches Some(t) && d
            matches RequestDecoration::Bearer { token } && token@ == t@,
    }
}

/// Whether a strategy's credentials are stale at time `now`.
pub open spec fn spec_needs_reauth(s: AuthStrategy, now: i64) -> bool {
    match s {
        AuthStrategy::Anonymous(_) => false,
        AuthStrategy::Basic(_) => false,
        AuthStrategy::Bearer(bt) => now - bt.created_at >= bt.expires_in,
    }
}

impl AuthStrategy {
    /// The decoration outbound requests carry under this strategy; a
    /// bearer state without a token cannot decorate anything yet.
    pub fn inject_authentication(&self) -> (r: Result<RequestDecoration, DockerClientError>)
        ensures
            match r {
                Ok(d) => decorates(*self, d),
                Err(e) => {
                    &&& self matches AuthStrategy::Bearer(bt) && bt.token is None
                    &&& e matches DockerClientError::UninitiatedAuthentication
                },
            },
    {
        match self {
            AuthStrategy::Anonymous(a) => Ok(a.inject_authentication()),
            AuthStrategy::Basic(b) => Ok(b.inject_authentication()),
            AuthStrategy::Bearer(bt) => bt.inject_authentication(),
        }
    }

    /// Only a bearer token can go stale.
    pub fn needs_reauthenticating(&self, now: i64) -> (r: bool)
        ensures
            r == spec_needs_reauth(*self, now),
    {
        match self {
            AuthStrategy::Anonymous(a) => a.needs_reauthenticating(),
            AuthStrategy::Basic(b) => b.needs_reauthenticating(),
            AuthStrategy::Bearer(bt) => bt.needs_reauthenticating(now),
        }
    }
}

} // verus!
