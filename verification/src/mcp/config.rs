//! The server-registry configuration manager.
//!
//! The manager owns the registry of configured servers and keeps its one
//! cross-field rule by construction: the default server, where one is set,
//! is kept pointing at servers that exist — adding the first server makes
//! it the default, and removing the default hands the role to the first
//! remaining server.  Loading the registry from disk and writing it back
//! are the surrounding application's work; the manager itself never
//! touches the filesystem.

use crate::ids::{fresh_id, id_text};
use crate::mcp::types::{MCPConfig, MCPConfigView, MCPServer, MCPServerView};
use vstd::pervasive::VecAdditionalExecFns;
use vstd::prelude::*;

verus! {

/// Every failure the registry can report.  `ServerNotFound` carries the
/// identifier that no configured server has; the other variants mirror
/// the failures of the surrounding persistence layer.
#[derive(Debug)]
pub enum ConfigError {
    CreateDir,
    Serialization,
    ConfigDir,
    ServerNotFound(String),
}

/// True when the configured server `s` has the identifier `id`.
pub open spec fn server_matches(s: MCPServerView, id: Seq<char>) -> bool {
    s.id == id
}

/// True when index `i` is the first server of `servers` with identifier
/// `id`.
pub open spec fn is_first_server(servers: Seq<MCPServerView>, id: Seq<char>, i: int) -> bool {
    &&& 0 <= i < servers.len()
    &&& server_matches(servers[i], id)
    &&& forall|j: int| 0 <= j < i ==> !server_matches(#[trigger] servers[j], id)
}

/// True when some server of `servers` has the identifier `id`.
pub open spec fn has_server(servers: Seq<MCPServerView>, id: Seq<char>) -> bool {
    exists|i: int| 0 <= i < servers.len() && server_matches(#[trigger] servers[i], id)
}

/// Decides equality of two strings.
fn str_eq(a: &str, b: &str) -> (r: bool)
    ensures
        r == (a@ == b@),
{
    a.to_owned() == b.to_owned()
}

/// The configuration manager: the in-memory registry of servers.
pub struct ConfigManager {
    config: MCPConfig,
}

impl View for ConfigManager {
    type V = MCPConfigView;

    closed spec fn view(&self) -> MCPConfigView {
        self.config.view()
    }
}

impl ConfigManager {
    /// Takes ownership of a loaded registry.  The surrounding application
    /// reads the configuration from disk — or starts from
    /// `MCPConfig::default()` where none exists — and hands it in here.
    pub fn new(config: MCPConfig) -> (r: Self)
        ensures
            r@ == config@,
    {
        ConfigManager { config }
    }

    /// The whole registry, for the surrounding application to persist.
    pub fn config(&self) -> (r: &MCPConfig)
        ensures
            r@ == self@,
    {
        &self.config
    }

    /// The first configured server with identifier `id`, if any.
    fn find_pos(&self, id: &str) -> (r: Option<usize>)
        ensures
            r matches Some(i) ==> is_first_server(self@.servers, id@, i as int),
            r is None ==> !has_server(self@.servers, id@),
    {
        let n = self.config.servers.len();
        let mut k: usize = 0;
        while k < n
            invariant
                n == self@.servers.len(),
                n == self.config.servers@.len(),
                0 <= k <= n,
                forall|j: int| 0 <= j < k ==> !server_matches(#[trigger] self@.servers[j], id@),
            decreases n - k,
        {
            if str_eq(self.config.servers[k].id.as_str(), id) {
                return Some(k);
            }
            k = k + 1;
        }
        None
    }

    /// Adds a server to the registry under a freshly drawn identifier —
    /// whatever identifier the caller supplied is replaced — and makes it
    /// the default where no default was set.  Returns the server as
    /// registered.
    pub fn add_server(&mut self, server: MCPServer) -> (r: Result<MCPServer, ConfigError>)
        ensures
            r is Ok,
            r matches Ok(added) ==> {
                &&& added@.name == server@.name
                &&& added@.url == server@.url
                &&& added@.token == server@.token
                &&& added@.is_active == server@.is_active
                &&& added@.last_connected == server@.last_connected
                &&& id_text(added@.id)
                &&& final(self)@.servers == old(self)@.servers.push(added@)
                &&& final(self)@.version == old(self)@.version
                &&& final(self)@.default_server == (if old(self)@.default_server is None {
                    Some(added@.id)
                } else {
                    old(self)@.default_server
                })
            },
    {
        let mut new_server = server;
        new_server.id = fresh_id();
        let added = new_server.clone();
        let ghost prior = self@.servers;
        self.config.servers.push(new_server);
        proof {
            assert(self@.servers =~= prior.push(added@));
        }
        if self.config.default_server.is_none() {
            self.config.default_server = Some(added.id.clone());
        }
        Ok(added)
    }

    /// Removes the first server with identifier `id`, or reports
    /// `ServerNotFound` with the registry untouched.  Where the removed
    /// server was the default, the first remaining server — if any —
    /// becomes the default.
    pub fn remove_server(&mut self, id: &str) -> (r: Result<(), ConfigError>)
        ensures
            !has_server(old(self)@.servers, id@) ==> final(self)@ == old(self)@ && (
            r matches Err(e) && e matches ConfigError::ServerNotFound(s) && s@ == id@),
            forall|i: int| #[trigger] is_first_server(old(self)@.servers, id@, i) ==> {
                let remaining = old(self)@.servers.remove(i);
                &&& r is Ok
                &&& final(self)@.servers == remaining
                &&& final(self)@.version == old(self)@.version
                &&& final(self)@.default_server == (if old(self)@.default_server == Some(id@) {
                    if remaining.len() > 0 {
                        Some(remaining[0].id)
                    } else {
                        None::<Seq<char>>
                    }
                } else {
                    old(self)@.default_server
                })
            },
    {
        let pos = match self.find_pos(id) {
            Some(p) => p,
            None => {
                return Err(ConfigError::ServerNotFound(id.to_owned()));
            },
        };
        let ghost prior = self@.servers;
        self.config.servers.remove(pos);
        proof {
            assert(self@.servers =~= prior.remove(pos as int));
        }
        let was_default = match &self.config.default_server {
            Some(d) => str_eq(d.as_str(), id),
            None => false,
        };
        if was_default {
            if self.config.servers.len() > 0 {
                let first_id = self.config.servers[0].id.clone();
                self.config.default_server = Some(first_id);
            } else {
                self.config.default_server = None;
            }
        }
        Ok(())
    }

    /// Replaces the first server whose identifier equals the one of the
    /// given server, or reports `ServerNotFound` with the registry
    /// untouched.
    pub fn update_server(&mut self, server: MCPServer) -> (r: Result<(), ConfigError>)
        ensures
            !has_server(old(self)@.servers, server@.id) ==> final(self)@ == old(self)@ && (
            r matches Err(e) && e matches ConfigError::ServerNotFound(s) && s@ == server@.id),
            forall|i: int| #[trigger] is_first_server(old(self)@.servers, server@.id, i) ==> {
                &&& r is Ok
                &&& final(self)@.servers == old(self)@.servers.update(i, server@)
                &&& final(self)@.version == old(self)@.version
                &&& final(self)@.default_server == old(self)@.default_server
            },
    {
        let pos = match self.find_pos(server.id.as_str()) {
            Some(p) => p,
            None => {
                return Err(ConfigError::ServerNotFound(server.id));
            },
        };
        let ghost prior = self@.servers;
        self.config.servers.set(pos, server);
        proof {
            assert(self@.servers =~= prior.update(pos as int, server@));
        }
        Ok(())
    }

    /// The first configured server with identifier `id`, if any.
    pub fn get_server(&self, id: &str) -> (r: Option<&MCPServer>)
        ensures
            r is Some <==> has_server(self@.servers, id@),
            forall|i: int| #[trigger] is_first_server(self@.servers, id@, i) ==> (r matches Some(
                s,
            ) && s@ == self@.servers[i]),
    {
        match self.find_pos(id) {
            Some(i) => Some(&self.config.servers[i]),
            None => None,
        }
    }

    /// All configured servers, in registration order.
    pub fn get_servers(&self) -> (r: &[MCPServer])
        ensures
            r@.len() == self@.servers.len(),
            forall|i: int| 0 <= i < r@.len() ==> (#[trigger] r@[i])@ == self@.servers[i],
    {
        self.config.servers.as_slice()
    }

    /// The default server, if one is chosen and still configured.
    pub fn get_default_server(&self) -> (r: Option<&MCPServer>)
        ensures
            self@.default_server is None ==> r is None,
            self@.default_server matches Some(did) ==> {
                &&& (r is Some <==> has_server(self@.servers, did))
                &&& forall|i: int|
                    #[trigger] is_first_server(self@.servers, did, i) ==> (r matches Some(s) && s@
                        == self@.servers[i])
            },
    {
        match &self.config.default_server {
            Some(did) => self.get_server(did.as_str()),
            None => None,
        }
    }

    /// Makes the server with identifier `id` the default, or reports
    /// `ServerNotFound` with the registry untouched.
    pub fn set_default_server(&mut self, id: &str) -> (r: Result<(), ConfigError>)
        ensures
            !has_server(old(self)@.servers, id@) ==> final(self)@ == old(self)@ && (
            r matches Err(e) && e matches ConfigError::ServerNotFound(s) && s@ == id@),
            has_server(old(self)@.servers, id@) ==> {
                &&& r is Ok
                &&& final(self)@.servers == old(self)@.servers
                &&& final(self)@.version == old(self)@.version
                &&& final(self)@.default_server == Some(id@)
            },
    {
        let found = self.get_server(id).is_some();
        if !found {
            return Err(ConfigError::ServerNotFound(id.to_owned()));
        }
        self.config.default_server = Some(id.to_owned());
        Ok(())
    }
}

} // verus!
