//! The extra adapter's cached rendezvous data.
//!
//! The adapter resolves the rendezvous-file path once and caches the parsed
//! `(port, nonce)` endpoint across connections.  The cache holds exactly
//! what parsing the file yielded; a worker failure invalidates it, and the
//! next connection reparses the file.

use vstd::prelude::*;

use crate::rendezvous::AgentEndpoint;
use crate::rendezvous::parse_rendezvous;
use crate::rendezvous::rendezvous_nonce;
use crate::rendezvous::rendezvous_ok;
use crate::rendezvous::rendezvous_port;
use crate::util::BridgeError;

verus! {

/// The cached state: an optional preset path to the rendezvous file, and
/// the endpoint parsed from it, absent until first use and after any
/// failure.
pub struct AgentMeta {
    pub path: Option<String>,
    pub endpoint: Option<AgentEndpoint>,
}

impl AgentMeta {
    pub open spec fn wf(&self) -> bool {
        self.endpoint matches Some(ep) ==> ep.wf()
    }

    /// A fresh cache; `path` may be preset by the user and then overrides
    /// path resolution.
    pub fn new(path: Option<String>) -> (m: AgentMeta)
        ensures
            m.wf(),
            m.path == path,
            m.endpoint is None,
    {
        AgentMeta { path, endpoint: None }
    }

    /// True when the next connection must (re)parse the rendezvous file.
    pub fn needs_load(&self) -> (r: bool)
        ensures
            r == (self.endpoint is None),
    {
        self.endpoint.is_none()
    }

    pub fn has_path(&self) -> (r: bool)
        ensures
            r == (self.path is Some),
    {
        self.path.is_some()
    }

    /// Record the resolved rendezvous-file path.
    pub fn set_path(&mut self, path: String)
        requires
            old(self).wf(),
        ensures
            final(self).wf(),
            final(self).path == Some(path),
            final(self).endpoint == old(self).endpoint,
    {
        self.path = Some(path);
    }

    /// Parse a freshly read rendezvous file and cache the result.  On
    /// success the cache holds exactly what a fresh parse of that file
    /// yields; on failure it holds nothing.
    pub fn load_endpoint(&mut self, file: &Vec<u8>) -> (r: Result<(), BridgeError>)
        requires
            old(self).wf(),
        ensures
            final(self).wf(),
            final(self).path == old(self).path,
            r is Ok <==> rendezvous_ok(file@),
            r is Ok ==> (final(self).endpoint matches Some(ep) && ep.port == rendezvous_port(file@)
                && ep.nonce@ == rendezvous_nonce(file@)),
            r matches Err(e) ==> e is InvalidData && final(self).endpoint is None,
    {
        match parse_rendezvous(file) {
            Ok(ep) => {
                self.endpoint = Some(ep);
                Ok(())
            },
            Err(e) => {
                self.endpoint = None;
                Err(e)
            },
        }
    }

    /// Drop the cached endpoint after a worker failure, so the next
    /// connection reparses the file.
    pub fn invalidate(&mut self)
        requires
            old(self).wf(),
        ensures
            final(self).wf(),
            final(self).path == old(self).path,
            final(self).endpoint is None,
    {
        self.endpoint = None;
    }

    /// The cached endpoint, copied out so the cache's lock need not be held
    /// while the connection runs.
    pub fn endpoint(&self) -> (r: Option<AgentEndpoint>)
        ensures
            r is Some <==> self.endpoint is Some,
            r matches Some(ep) ==> (self.endpoint matches Some(c) && ep.port == c.port && ep.nonce@
                == c.nonce@),
    {
        match &self.endpoint {
            Some(ep) => Some(ep.duplicate()),
            None => None,
        }
    }
}

} // verus!
