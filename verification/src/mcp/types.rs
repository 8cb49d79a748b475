//! The data model of the server registry.

use vstd::prelude::*;

verus! {

/// One configured server.
pub struct MCPServer {
    pub id: String,
    pub name: String,
    pub url: String,
    pub token: Option<String>,
    pub is_active: bool,
    pub last_connected: Option<String>,
}

/// The mathematical value of an [`MCPServer`].
pub struct MCPServerView {
    pub id: Seq<char>,
    pub name: Seq<char>,
    pub url: Seq<char>,
    pub token: Option<Seq<char>>,
    pub is_active: bool,
    pub last_connected: Option<Seq<char>>,
}

impl View for MCPServer {
    type V = MCPServerView;

    open spec fn view(&self) -> MCPServerView {
        MCPServerView {
            id: self.id.view(),
            name: self.name.view(),
            url: self.url.view(),
            token: match self.token {
                Some(t) => Some(t.view()),
                None => None,
            },
            is_active: self.is_active,
            last_connected: match self.last_connected {
                Some(t) => Some(t.view()),
                None => None,
            },
        }
    }
}

impl DeepView for MCPServer {
    type V = MCPServerView;

    open spec fn deep_view(&self) -> MCPServerView {
        self.view()
    }
}

impl Clone for MCPServer {
    fn clone(&self) -> (r: Self)
        ensures
            r@ == self@,
    {
        MCPServer {
            id: self.id.clone(),
            name: self.name.clone(),
            url: self.url.clone(),
            token: match &self.token {
                Some(t) => Some(t.clone()),
                None => None,
            },
            is_active: self.is_active,
            last_connected: match &self.last_connected {
                Some(t) => Some(t.clone()),
                None => None,
            },
        }
    }
}

/// The whole registry: a format version, the configured servers, and the
/// identifier of the default server, if one is chosen.
pub struct MCPConfig {
    pub version: String,
    pub default_server: Option<String>,
    pub servers: Vec<MCPServer>,
}

/// The mathematical value of an [`MCPConfig`].
pub struct MCPConfigView {
    pub version: Seq<char>,
    pub default_server: Option<Seq<char>>,
    pub servers: Seq<MCPServerView>,
}

impl View for MCPConfig {
    type V = MCPConfigView;

    open spec fn view(&self) -> MCPConfigView {
        MCPConfigView {
            version: self.version.view(),
            default_server: match self.default_server {
                Some(s) => Some(s.view()),
                None => None,
            },
            servers: self.servers.deep_view(),
        }
    }
}

impl Default for MCPConfig {
    /// An empty registry at format version 1.0, with no default server.
    fn default() -> (r: Self)
        ensures
            r@.version == "1.0"@,
            r@.default_server is None,
            r@.servers == Seq::<MCPServerView>::empty(),
    {
        let r = MCPConfig {
            version: String::from_str("1.0"),
            default_server: None,
            servers: Vec::new(),
        };
        proof {
            assert(r@.servers =~= Seq::<MCPServerView>::empty());
        }
        r
    }
}

} // verus!
