//! The upstream registry client: the authentication state machine and
//! the decisions around manifest and blob queries.
//!
//! The HTTP transport stays outside: this module plans requests (URL,
//! method, credential decoration) and judges responses (status codes,
//! mandatory headers), moving the client through the authentication
//! states exactly as the upstream's answers dictate.

use vstd::prelude::*;
use vstd::string::StringExecFns;
use crate::authentication_strategies::{
    AnonymousAuthStrategy, AuthStrategy, BearerTokenAuthStrategy, HttpBasicAuthStrategy,
    RequestDecoration, TokenGrant, TokenRequest, decorates, first_key_at, spec_needs_reauth,
    spec_query_pairs, spec_render_query,
};
use crate::client_responses::{ProxyBlobResponse, ProxyManifestResponse};
use crate::helpers::{parse_u32_decimal, spec_digits_value, spec_is_u32_decimal};
use crate::www_authenticate::{
    AuthenticationChallenge, ChallengeModel, WwwAuthenticateError, spec_parse_challenge,
};

verus! {

/// Every failure the upstream client can report.
#[derive(Debug)]
pub enum DockerClientError {
    UnexpectedStatusCode(u16),
    MissingProxyHeader(String),
    BadAuthenticationCredentials,
    WwwAuthenticateParseError(WwwAuthenticateError),
    UninitiatedAuthentication,
    ReqwestError(String),
}

/// What the caller must do next after feeding a probe response in.
pub enum ProbeAction {
    /// The client was already authenticated; nothing to do.
    AlreadyAuthenticated,
    /// Anonymous access adopted; the flow is complete.
    Done,
    /// Basic credentials adopted; probe again with them attached and
    /// feed the status to the verification step.
    VerifyBasic,
    /// Bearer flow started; GET the token endpoint and feed the answer
    /// to the token step.
    FetchToken(TokenRequest),
}

/// A planned upstream request: method, URL and credential decoration.
pub struct RequestPlan {
    pub head: bool,
    pub url: String,
    pub decoration: RequestDecoration,
}

/// An upstream client for one (registry, repository) pair.
pub struct DockerClient {
    pub auth_strat: Option<AuthStrategy>,
    pub registry: String,
    pub container: String,
}

impl DockerClient {
    /// A fresh, unauthenticated client.
    pub fn new(registry: &str, container: &str) -> (r: Self)
        ensures
            r.auth_strat is None,
            r.registry@ == registry@,
            r.container@ == container@,
    {
        DockerClient {
            auth_strat: None,
            registry: registry.to_owned(),
            container: container.to_owned(),
        }
    }

    /// The unauthenticated probe URL: `https://<registry>/v2/`.
    pub fn probe_url(&self) -> (r: String)
        ensures
            r@ == "https://"@ + self.registry@ + "/v2/"@,
    {
        let mut out = "https://".to_owned();
        out.append(self.registry.as_str());
        out.append("/v2/");
        out
    }

    /// Feeds the answer of the unauthenticated probe into the state
    /// machine: 200 adopts anonymous access, 401 branches on the
    /// challenge, anything else is an unexpected status.
    pub fn authenticate_on_probe(
        &mut self,
        status: u16,
        www_authenticate: Option<&str>,
        registry_username: Option<&str>,
        registry_password: Option<&str>,
        now: i64,
    ) -> (r: Result<ProbeAction, DockerClientError>)
        ensures
            final(self).registry == old(self).registry,
            final(self).container == old(self).container,
            ({
                if old(self).auth_strat is Some {
                    &&& r matches Ok(a) && (a matches ProbeAction::AlreadyAuthenticated)
                    &&& final(self).auth_strat == old(self).auth_strat
                } else if status == 200 {
                    &&& r matches Ok(a) && (a matches ProbeAction::Done)
                    &&& final(self).auth_strat matches Some(s) && (s
                        matches AuthStrategy::Anonymous(_))
                } else if status != 401 {
                    &&& r matches Err(e) && (e matches DockerClientError::UnexpectedStatusCode(
                        c,
                    ) && c == status)
                    &&& final(self).auth_strat is None
                } else {
                    match www_authenticate {
                        None => {
                            &&& r matches Err(e) && (e
                                matches DockerClientError::MissingProxyHeader(h) && h@
                                == "WWW-Authenticate"@)
                            &&& final(self).auth_strat is None
                        },
                        Some(header) => match spec_parse_challenge(header@) {
                            Err(em) => {
                                &&& r matches Err(e) && (e
                                    matches DockerClientError::WwwAuthenticateParseError(we) && we@
                                    == em)
                                &&& final(self).auth_strat is None
                            },
                            Ok(ChallengeModel::Basic(_)) => {
                                match registry_username {
                                    Some(u) => {
                                        &&& r matches Ok(a) && (a
                                            matches ProbeAction::VerifyBasic)
                                        &&& final(self).auth_strat matches Some(s) && (s
                                            matches AuthStrategy::Basic(b) && b.username@ == u@
                                            && (match (b.password, registry_password) {
                                            (Some(a2), Some(b2)) => a2@ == b2@,
                                            (None, None) => true,
                                            _ => false,
                                        }))
                                    },
                                    None => {
                                        &&& r matches Err(e) && (e
                                            matches DockerClientError::BadAuthenticationCredentials)
                                        &&& final(self).auth_strat is None
                                    },
                                }
                            },
                            Ok(ChallengeModel::Bearer(ps)) => {
                                let scope = "repository:"@ + old(self).container@ + ":pull"@;
                                if exists|i: int| first_key_at(ps, "realm"@, i) {
                                    &&& r matches Ok(a) && (a matches ProbeAction::FetchToken(
                                        t,
                                    ) && (exists|i: int|
                                        first_key_at(ps, "realm"@, i) && t.url@ == ps[i].1)
                                        && t.query@ == spec_render_query(
                                        spec_query_pairs(ps, scope),
                                    ) && (match (t.username, registry_username) {
                                        (Some(a2), Some(b2)) => a2@ == b2@,
                                        (None, None) => true,
                                        _ => false,
                                    }) && (match (t.password, registry_password) {
                                        (Some(a2), Some(b2)) => a2@ == b2@,
                                        (None, None) => true,
                                        _ => false,
                                    }))
                                    &&& final(self).auth_strat matches Some(s) && (s
                                        matches AuthStrategy::Bearer(bt) && bt.token is None
                                        && bt.created_at == now && bt.expires_in == 0 && bt.scope@
                                        == scope)
                                } else {
                                    &&& r matches Err(e) && (e
                                        matches DockerClientError::BadAuthenticationCredentials)
                                    &&& final(self).auth_strat is None
                                }
                            },
                        },
                    }
                }
            }),
    {
        if self.auth_strat.is_some() {
            return Ok(ProbeAction::AlreadyAuthenticated);
        }
        if status == 200 {
            self.auth_strat = Some(AuthStrategy::Anonymous(AnonymousAuthStrategy));
            return Ok(ProbeAction::Done);
        }
        if status != 401 {
            return Err(DockerClientError::UnexpectedStatusCode(status));
        }
        let header = match www_authenticate {
            Some(h) => h,
            None => {
                return Err(
                    DockerClientError::MissingProxyHeader("WWW-Authenticate".to_owned()),
                );
            },
        };
        let challenge = match AuthenticationChallenge::from_www_authenticate(header) {
            Ok(c) => c,
            Err(e) => {
                return Err(DockerClientError::WwwAuthenticateParseError(e));
            },
        };
        match challenge {
            AuthenticationChallenge::Basic(_) => {
                match registry_username {
                    Some(u) => {
                        let strat = HttpBasicAuthStrategy::new(u, registry_password);
                        self.auth_strat = Some(AuthStrategy::Basic(strat));
                        Ok(ProbeAction::VerifyBasic)
                    },
                    None => Err(DockerClientError::BadAuthenticationCredentials),
                }
            },
            AuthenticationChallenge::Bearer(params) => {
                let bearer = BearerTokenAuthStrategy::new(self.container.as_str(), now);
                match bearer.build_token_request(&params, registry_username, registry_password) {
                    Ok(req) => {
                        self.auth_strat = Some(AuthStrategy::Bearer(bearer));
                        Ok(ProbeAction::FetchToken(req))
                    },
                    Err(_) => Err(DockerClientError::BadAuthenticationCredentials),
                }
            },
        }
    }

    /// Feeds the token endpoint's answer into the state machine. Any
    /// failure discards the tentative bearer state, so no
    /// half-authenticated client is left behind.
    pub fn authenticate_on_token(
        &mut self,
        status: u16,
        body: Option<TokenGrant>,
        now: i64,
    ) -> (r: Result<(), DockerClientError>)
        ensures
            final(self).registry == old(self).registry,
            final(self).container == old(self).container,
            ({
                match old(self).auth_strat {
                    Some(AuthStrategy::Bearer(b)) => match r {
                        Ok(_) => {
                            &&& status == 200
                            &&& body matches Some(g) && (g.token@.len() > 0 && g.token@
                                != "unauthenticated"@ && (final(self).auth_strat matches Some(s)
                                && (s matches AuthStrategy::Bearer(nb) && (nb.token matches Some(
                                t,
                            ) && t@ == g.token@) && nb.scope == b.scope && nb.expires_in == (
                            match g.expires_in {
                                Some(e) => e,
                                None => 60u64,
                            }) && nb.created_at == (match g.issued_at {
                                Some(sr) => match
                                    crate::authentication_strategies::rfc3339_unix_of(sr@) {
                                    Some(t2) => t2,
                                    None => now,
                                },
                                None => now,
                            }))))
                        },
                        Err(e) => {
                            &&& final(self).auth_strat is None
                            &&& (match e {
                                DockerClientError::BadAuthenticationCredentials => status == 401
                                    || (status == 200 && (body matches Some(g) && (g.token@.len()
                                    == 0 || g.token@ == "unauthenticated"@))),
                                DockerClientError::UnexpectedStatusCode(c) => c == status && status
                                    != 200 && status != 401,
                                DockerClientError::ReqwestError(_) => status == 200
                                    && body is None,
                                _ => false,
                            })
                        },
                    },
                    _ => {
                        &&& r matches Err(e) && (e
                            matches DockerClientError::UninitiatedAuthentication)
                        &&& final(self).auth_strat == old(self).auth_strat
                    },
                }
            }),
    {
        let mut taken: Option<AuthStrategy> = None;
        core::mem::swap(&mut taken, &mut self.auth_strat);
        match taken {
            Some(AuthStrategy::Bearer(mut bearer)) => {
                match bearer.execute_authentication(status, body, now) {
                    Ok(_) => {
                        self.auth_strat = Some(AuthStrategy::Bearer(bearer));
                        Ok(())
                    },
                    Err(e) => {
                        self.auth_strat = None;
                        Err(e)
                    },
                }
            },
            other => {
                self.auth_strat = other;
                Err(DockerClientError::UninitiatedAuthentication)
            },
        }
    }

    /// Feeds the verification probe's status in: 200 keeps the adopted
    /// credentials, 401 discards them as rejected, anything else
    /// discards them as an unexpected status.
    pub fn authenticate_on_verify(&mut self, status: u16) -> (r: Result<(), DockerClientError>)
        ensures
            final(self).registry == old(self).registry,
            final(self).container == old(self).container,
            match r {
                Ok(_) => status == 200 && final(self).auth_strat == old(self).auth_strat,
                Err(e) => {
                    &&& final(self).auth_strat is None
                    &&& (match e {
                        DockerClientError::BadAuthenticationCredentials => status == 401,
                        DockerClientError::UnexpectedStatusCode(c) => c == status && status != 200
                            && status != 401,
                        _ => false,
                    })
                },
            },
    {
        if status == 200 {
            Ok(())
        } else if status == 401 {
            self.auth_strat = None;
            Err(DockerClientError::BadAuthenticationCredentials)
        } else {
            self.auth_strat = None;
            Err(DockerClientError::UnexpectedStatusCode(status))
        }
    }

    /// Judges the registry root's answer to a decorated request: only
    /// 200 is success.
    pub fn query_base_response(&self, status: u16) -> (r: Result<(), DockerClientError>)
        ensures
            match r {
                Ok(_) => status == 200,
                Err(e) => status != 200 && (e matches DockerClientError::UnexpectedStatusCode(c)
                    && c == status),
            },
    {
        if status == 200 {
            Ok(())
        } else {
            Err(DockerClientError::UnexpectedStatusCode(status))
        }
    }

    /// The decoration the current credentials stamp on a request; an
    /// absent or incomplete authentication cannot decorate anything.
    fn decoration(&self) -> (r: Result<RequestDecoration, DockerClientError>)
        ensures
            match r {
                Ok(d) => self.auth_strat matches Some(s) && decorates(s, d),
                Err(e) => {
                    &&& e matches DockerClientError::UninitiatedAuthentication
                    &&& (self.auth_strat is None || (self.auth_strat matches Some(
                        AuthStrategy::Bearer(bt),
                    ) && bt.token is None))
                },
            },
    {
        match &self.auth_strat {
            None => Err(DockerClientError::UninitiatedAuthentication),
            Some(s) => s.inject_authentication(),
        }
    }

    /// Plans an authenticated manifest HEAD or GET:
    /// `https://<registry>/v2/<container>/manifests/<reference>`.
    pub fn manifest_request(&self, manifest_ref: &str, query_head: bool) -> (r: Result<
        RequestPlan,
        DockerClientError,
    >)
        ensures
            match r {
                Ok(p) => {
                    &&& self.auth_strat matches Some(s) && decorates(s, p.decoration)
                    &&& p.head == query_head
                    &&& p.url@ == "https://"@ + self.registry@ + "/v2/"@ + self.container@
                        + "/manifests/"@ + manifest_ref@
                },
                Err(e) => {
                    &&& e matches DockerClientError::UninitiatedAuthentication
                    &&& (self.auth_strat is None || (self.auth_strat matches Some(
                        AuthStrategy::Bearer(bt),
                    ) && bt.token is None))
                },
            },
    {
        let decoration = match self.decoration() {
            Ok(d) => d,
            Err(e) => {
                return Err(e);
            },
        };
        let mut url = "https://".to_owned();
        url.append(self.registry.as_str());
        url.append("/v2/");
        url.append(self.container.as_str());
        url.append("/manifests/");
        url.append(manifest_ref);
        Ok(RequestPlan { head: query_head, url, decoration })
    }

    /// Plans an authenticated blob GET:
    /// `https://<registry>/v2/<container>/blobs/<digest>`.
    pub fn blob_request(&self, digest: &str) -> (r: Result<RequestPlan, DockerClientError>)
        ensures
            match r {
                Ok(p) => {
                    &&& self.auth_strat matches Some(s) && decorates(s, p.decoration)
                    &&& p.head == false
                    &&& p.url@ == "https://"@ + self.registry@ + "/v2/"@ + self.container@
                        + "/blobs/"@ + digest@
                },
                Err(e) => {
                    &&& e matches DockerClientError::UninitiatedAuthentication
                    &&& (self.auth_strat is None || (self.auth_strat matches Some(
                        AuthStrategy::Bearer(bt),
                    ) && bt.token is None))
                },
            },
    {
        let decoration = match self.decoration() {
            Ok(d) => d,
            Err(e) => {
                return Err(e);
            },
        };
        let mut url = "https://".to_owned();
        url.append(self.registry.as_str());
        url.append("/v2/");
        url.append(self.container.as_str());
        url.append("/blobs/");
        url.append(digest);
        Ok(RequestPlan { head: false, url, decoration })
    }

    /// Judges a manifest response: 200 with the digest, content type
    /// and a numeric content length all present, each absence being a
    /// distinct missing-header failure.
    pub fn on_manifest_response(
        &self,
        status: u16,
        digest: Option<&str>,
        content_type: Option<&str>,
        content_length: Option<&str>,
    ) -> (r: Result<ProxyManifestResponse, DockerClientError>)
        ensures
            match r {
                Ok(resp) => {
                    &&& status == 200
                    &&& digest matches Some(d) && resp.hash@ == d@
                    &&& content_type matches Some(ct) && resp.content_type@ == ct@
                    &&& content_length matches Some(cl) && spec_is_u32_decimal(cl@)
                        && resp.content_length == spec_digits_value(cl@)
                },
                Err(e) => match e {
                    DockerClientError::UnexpectedStatusCode(c) => c == status && status != 200,
                    DockerClientError::MissingProxyHeader(h) => status == 200 && ((h@
                        == "Docker-Content-Digest"@ && digest is None) || (h@ == "Content-Type"@
                        && digest is Some && content_type is None) || (h@ == "Content-Length"@
                        && digest is Some && content_type is Some && (match content_length {
                        Some(cl) => !spec_is_u32_decimal(cl@),
                        None => true,
                    }))),
                    _ => false,
                },
            },
    {
        if status != 200 {
            return Err(DockerClientError::UnexpectedStatusCode(status));
        }
        let hash = match digest {
            Some(d) => d.to_owned(),
            None => {
                return Err(
                    DockerClientError::MissingProxyHeader("Docker-Content-Digest".to_owned()),
                );
            },
        };
        let ctype = match content_type {
            Some(ct) => ct.to_owned(),
            None => {
                return Err(DockerClientError::MissingProxyHeader("Content-Type".to_owned()));
            },
        };
        let clen = match content_length {
            Some(cl) => match parse_u32_decimal(cl) {
                Some(n) => n,
                None => {
                    return Err(
                        DockerClientError::MissingProxyHeader("Content-Length".to_owned()),
                    );
                },
            },
            None => {
                return Err(DockerClientError::MissingProxyHeader("Content-Length".to_owned()));
            },
        };
        Ok(ProxyManifestResponse { hash, content_type: ctype, content_length: clen })
    }

    /// Judges a blob response: 200 with a numeric content length; the
    /// digest header is optional (some registries omit it).
    pub fn on_blob_response(
        &self,
        status: u16,
        digest: Option<&str>,
        content_length: Option<&str>,
    ) -> (r: Result<ProxyBlobResponse, DockerClientError>)
        ensures
            match r {
                Ok(resp) => {
                    &&& status == 200
                    &&& (match (resp.hash, digest) {
                        (Some(a), Some(b)) => a@ == b@,
                        (None, None) => true,
                        _ => false,
                    })
                    &&& content_length matches Some(cl) && spec_is_u32_decimal(cl@)
                        && resp.content_length == spec_digits_value(cl@)
                },
                Err(e) => match e {
                    DockerClientError::UnexpectedStatusCode(c) => c == status && status != 200,
                    DockerClientError::MissingProxyHeader(h) => status == 200 && h@
                        == "Content-Length"@ && (match content_length {
                        Some(cl) => !spec_is_u32_decimal(cl@),
                        None => true,
                    }),
                    _ => false,
                },
            },
    {
        if status != 200 {
            return Err(DockerClientError::UnexpectedStatusCode(status));
        }
        let hash = match digest {
            Some(d) => Some(d.to_owned()),
            None => None,
        };
        let clen = match content_length {
            Some(cl) => match parse_u32_decimal(cl) {
                Some(n) => n,
                None => {
                    return Err(
                        DockerClientError::MissingProxyHeader("Content-Length".to_owned()),
                    );
                },
            },
            None => {
                return Err(DockerClientError::MissingProxyHeader("Content-Length".to_owned()));
            },
        };
        Ok(ProxyBlobResponse { hash, content_length: clen })
    }

    /// Whether the client's credentials must be renewed before the next
    /// upstream operation at time `now`.
    pub fn authentication_needs_revalidation(&self, now: i64) -> (r: bool)
        ensures
            r == (match self.auth_strat {
                Some(s) => spec_needs_reauth(s, now),
                None => false,
            }),
    {
        match &self.auth_strat {
            Some(strat) => strat.needs_reauthenticating(now),
            None => false,
        }
    }
}

} // verus!
