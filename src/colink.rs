//! The client handle: where the core service is, the user's JWT, and the
//! task that the handle is bound to, if any.
use vstd::prelude::*;
use vstd::string::*;
use crate::auth::{decode_jwt_without_validation, decoded_claims_spec, JwtDecodeError};
use crate::text::starts_with;

verus! {

/// A handle on the core service for one user, optionally bound to a task.
#[derive(Clone)]
pub struct CoLink {
    pub core_addr: String,
    pub jwt: String,
    pub task_id: String,
    /// PEM of the CA certificate to trust, when not the system roots.
    pub ca_certificate: Option<Vec<u8>>,
    /// PEM of the client certificate and key for mutual TLS.
    pub identity: Option<(Vec<u8>, Vec<u8>)>,
}

/// Why a handle could not answer.
#[derive(Clone, Copy, Debug, PartialEq, Eq, Structural)]
pub enum HandleError {
    /// The handle is not bound to a task.
    TaskIdNotFound,
    /// No core address was given.
    CoreAddrNotFound,
    /// The JWT's claims could not be read.
    Jwt(JwtDecodeError),
}

impl CoLink {
    /// A handle on the core at `core_addr` for the user of `jwt`, bound to no task.
    pub fn new(core_addr: &str, jwt: &str) -> (r: CoLink)
        ensures
            r.core_addr@ == core_addr@,
            r.jwt@ == jwt@,
            r.task_id@.len() == 0,
            r.ca_certificate is None,
            r.identity is None,
    {
        CoLink {
            core_addr: String::from_str(core_addr),
            jwt: String::from_str(jwt),
            task_id: String::new(),
            ca_certificate: None,
            identity: None,
        }
    }

    /// The same handle, trusting the CA certificate in `pem`.
    pub fn ca_certificate(self, pem: Vec<u8>) -> (r: CoLink)
        ensures
            r.core_addr == self.core_addr,
            r.jwt == self.jwt,
            r.task_id == self.task_id,
            r.identity == self.identity,
            r.ca_certificate matches Some(c) && c@ == pem@,
    {
        CoLink { ca_certificate: Some(pem), ..self }
    }

    /// The same handle, presenting the client certificate and key in `cert`
    /// and `key`.
    pub fn identity(self, cert: Vec<u8>, key: Vec<u8>) -> (r: CoLink)
        ensures
            r.core_addr == self.core_addr,
            r.jwt == self.jwt,
            r.task_id == self.task_id,
            r.ca_certificate == self.ca_certificate,
            r.identity matches Some(p) && p.0@ == cert@ && p.1@ == key@,
    {
        CoLink { identity: Some((cert, key)), ..self }
    }

    /// Binds the handle to a task.
    pub fn set_task_id(&mut self, task_id: &str)
        ensures
            final(self).task_id@ == task_id@,
            final(self).core_addr == old(self).core_addr,
            final(self).jwt == old(self).jwt,
    {
        self.task_id = String::from_str(task_id);
    }

    /// The task the handle is bound to.
    pub fn get_task_id(&self) -> (r: Result<String, HandleError>)
        ensures
            match r {
                Ok(t) => self.task_id@.len() > 0 && t@ == self.task_id@,
                Err(e) => self.task_id@.len() == 0 && e == HandleError::TaskIdNotFound,
            },
    {
        if self.task_id.unicode_len() == 0 {
            return Err(HandleError::TaskIdNotFound);
        }
        Ok(self.task_id.clone())
    }

    /// The user id that the handle's JWT names.
    pub fn get_user_id(&self) -> (r: Result<String, HandleError>)
        ensures
            match r {
                Ok(u) => decoded_claims_spec(self.jwt@) matches Ok(t) && t.1 == u@,
                Err(e) => decoded_claims_spec(self.jwt@) matches Err(x) && e == HandleError::Jwt(x),
            },
    {
        match decode_jwt_without_validation(self.jwt.as_str()) {
            Ok(a) => Ok(a.user_id),
            Err(e) => Err(HandleError::Jwt(e)),
        }
    }

    /// The core's address.
    pub fn get_core_addr(&self) -> (r: Result<String, HandleError>)
        ensures
            match r {
                Ok(a) => self.core_addr@.len() > 0 && a@ == self.core_addr@,
                Err(e) => self.core_addr@.len() == 0 && e == HandleError::CoreAddrNotFound,
            },
    {
        if self.core_addr.unicode_len() == 0 {
            return Err(HandleError::CoreAddrNotFound);
        }
        Ok(self.core_addr.clone())
    }

    /// Replaces the handle's JWT.
    pub fn update_jwt(&mut self, new_jwt: &str)
        ensures
            final(self).jwt@ == new_jwt@,
            final(self).core_addr == old(self).core_addr,
            final(self).task_id == old(self).task_id,
    {
        self.jwt = String::from_str(new_jwt);
    }
}

/// The kind of message queue that delivers subscriptions.
#[derive(Clone, Copy, Debug, PartialEq, Eq, Structural)]
pub enum CoLinkMQType {
    RabbitMQ,
    RedisStream,
}

/// The scheme of a URL as `url::Url::parse` reads it, or `None` where the
/// text does not parse.
pub uninterp spec fn url_scheme_of(uri: Seq<char>) -> Option<Seq<char>>;

/// Relies on url::Url::parse and Url::scheme.
#[verifier::external_body]
fn url_scheme(uri: &str) -> (r: Option<String>)
    ensures
        match r {
            Some(s) => url_scheme_of(uri@) == Some(s@),
            None => url_scheme_of(uri@) is None,
        },
{
    url::Url::parse(uri).ok().map(|u| u.scheme().to_string())
}

pub open spec fn mq_type_for_scheme_spec(scheme: Seq<char>) -> CoLinkMQType {
    if scheme.len() >= 5 && scheme.subrange(0, 5) == "redis"@ {
        CoLinkMQType::RedisStream
    } else {
        CoLinkMQType::RabbitMQ
    }
}

/// A scheme starting with `redis` names a Redis stream; any other, RabbitMQ.
pub fn mq_type_for_scheme(scheme: &str) -> (r: CoLinkMQType)
    ensures
        r == mq_type_for_scheme_spec(scheme@),
{
    proof { reveal_strlit("redis"); }
    if starts_with(scheme, "redis") {
        CoLinkMQType::RedisStream
    } else {
        CoLinkMQType::RabbitMQ
    }
}

/// The queue kind that a subscription URI names; `None` when the URI does
/// not parse.
pub fn mq_type_for_uri(uri: &str) -> (r: Option<CoLinkMQType>)
    ensures
        match url_scheme_of(uri@) {
            Some(s) => r == Some(mq_type_for_scheme_spec(s)),
            None => r is None,
        },
{
    match url_scheme(uri) {
        Some(s) => Some(mq_type_for_scheme(s.as_str())),
        None => None,
    }
}

/// The settings a protocol process starts from.
pub struct CommandLineArgs {
    /// Address of the core service.
    pub addr: String,
    /// The user's JWT.
    pub jwt: String,
    /// Path to the CA certificate.
    pub ca: Option<String>,
    /// Path to the client certificate.
    pub cert: Option<String>,
    /// Path to the client key.
    pub key: Option<String>,
    /// Keep running when the core cannot be reached.
    pub keep_alive_when_disconnect: bool,
    /// Public address for the variable-transfer inbox.
    pub vt_public_addr: Option<String>,
}

impl CommandLineArgs {
    /// The client certificate and key paths, used only when both are given.
    pub fn identity_paths(&self) -> (r: Option<(String, String)>)
        ensures
            match (self.cert, self.key) {
                (Some(c), Some(k)) => r matches Some(p) && p.0@ == c@ && p.1@ == k@,
                _ => r is None,
            },
    {
        match (&self.cert, &self.key) {
            (Some(c), Some(k)) => Some((c.clone(), k.clone())),
            _ => None,
        }
    }
}

} // verus!
