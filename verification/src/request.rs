use crate::error::EngineError;
use crate::model::Link;
use vstd::prelude::*;
use vstd::string::*;

verus! {

/// Status of a redirect that must be repeated with the same method.
pub const TEMPORARY_REDIRECT: u16 = 307;

/// Status of a created link.
pub const CREATED: u16 = 201;

/// Status of a deleted link.
pub const NO_CONTENT: u16 = 204;

/// The status that answers a creation: created, or the error's status.
pub fn creation_status(outcome: &Result<Link, EngineError>) -> (status: u16)
    ensures
        status == match *outcome {
            Ok(_) => CREATED,
            Err(e) => e.status_code(),
        },
{
    match outcome {
        Ok(_) => CREATED,
        Err(e) => e.status_code(),
    }
}

/// The status that answers a deletion: no content, or the error's status.
pub fn deletion_status(outcome: &Result<(), EngineError>) -> (status: u16)
    ensures
        status == match *outcome {
            Ok(_) => NO_CONTENT,
            Err(e) => e.status_code(),
        },
{
    match outcome {
        Ok(_) => NO_CONTENT,
        Err(e) => e.status_code(),
    }
}

/// The status that answers a resolution: the redirect's, or the error's status.
pub fn resolution_status(outcome: &Result<Redirect, EngineError>) -> (status: u16)
    ensures
        status == match *outcome {
            Ok(redirect) => redirect.status,
            Err(e) => e.status_code(),
        },
{
    match outcome {
        Ok(redirect) => redirect.status,
        Err(e) => e.status_code(),
    }
}

/// What the transport layer knows of the requester of a redirect.
#[derive(Debug, Clone, PartialEq, Eq)]
pub struct RequestMetadata {
    /// The remote address, where the transport could determine one.
    pub remote_addr: Option<String>,
    /// The user-agent header, where the request carries one.
    pub user_agent: Option<String>,
}

impl RequestMetadata {
    /// The address recorded for the requester: the remote address, or
    /// `unknown` where there is none.
    pub open spec fn ip_address(&self) -> Seq<char> {
        match self.remote_addr {
            Some(addr) => addr@,
            None => "unknown"@,
        }
    }

    /// The browser recorded for the requester: the user agent, or the empty
    /// string where there is none.
    pub open spec fn browser(&self) -> Seq<char> {
        match self.user_agent {
            Some(agent) => agent@,
            None => Seq::<char>::empty(),
        }
    }

    /// The address to record for the requester.
    pub fn client_ip_address(&self) -> (text: String)
        ensures
            text@ == self.ip_address(),
    {
        match &self.remote_addr {
            Some(addr) => addr.clone(),
            None => String::from_str("unknown"),
        }
    }

    /// The browser to record for the requester.
    pub fn client_browser(&self) -> (text: String)
        ensures
            text@ == self.browser(),
    {
        match &self.user_agent {
            Some(agent) => agent.clone(),
            None => String::new(),
        }
    }
}

/// The answer to a resolved slug: where to send the client, and the headers
/// that go with it.
#[derive(Debug, Clone, PartialEq, Eq)]
pub struct Redirect {
    pub status: u16,
    pub location: String,
    pub referrer_policy: String,
}

impl Redirect {
    /// Whether this is the redirect to `target`: a temporary redirect that
    /// tells the client to send no referrer.
    pub open spec fn leads_to(&self, target: Seq<char>) -> bool {
        &&& self.status == TEMPORARY_REDIRECT
        &&& self.location@ == target
        &&& self.referrer_policy@ == "no-referrer"@
    }

    /// The redirect to `target`.
    pub fn to(target: String) -> (redirect: Redirect)
        ensures
            redirect.leads_to(target@),
    {
        Redirect {
            status: TEMPORARY_REDIRECT,
            location: target,
            referrer_policy: String::from_str("no-referrer"),
        }
    }
}

} // verus!
