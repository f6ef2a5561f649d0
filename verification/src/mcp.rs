//! The registry of tool servers: their configurations, whether they are
//! enabled and connected, and the tools each connected one offers. Running
//! the server processes and speaking to them is left to the caller.

use vstd::prelude::*;
use crate::keyed::StrMap;
use crate::history::Stamp;
use crate::random::new_uuid;
use crate::text::{concat_parts, concat_views, owned, copy_strings};

verus! {

/// How to start a tool server.
#[derive(Debug)]
pub struct MCPServerConfig {
    pub name: String,
    pub command: String,
    pub args: Vec<String>,
    pub env: Vec<(String, String)>,
}

/// A registered tool server.
#[derive(Debug)]
pub struct MCPServer {
    pub id: String,
    pub name: String,
    pub command: String,
    pub args: Vec<String>,
    pub env: Vec<(String, String)>,
    pub enabled: bool,
    pub connected: bool,
    pub last_error: Option<String>,
    pub created_at: Stamp,
    pub last_connected: Option<Stamp>,
}

/// A tool a server offers; its input schema is JSON text.
#[derive(Debug)]
pub struct MCPTool {
    pub name: String,
    pub description: Option<String>,
    pub input_schema: String,
}

/// What is known of a live connection: whether the handshake completed and
/// the tools found.
#[derive(Debug)]
pub struct MCPConnection {
    pub connected: bool,
    pub tools: Vec<MCPTool>,
}

/// The registry.
pub struct MCPManager {
    pub servers: StrMap<MCPServer>,
    pub connections: StrMap<MCPConnection>,
}

fn copy_pairs(v: &Vec<(String, String)>) -> (r: Vec<(String, String)>)
    ensures
        r@ == v@,
{
    let mut r: Vec<(String, String)> = Vec::new();
    let mut i: usize = 0;
    while i < v.len()
        invariant
            i <= v@.len(),
            r@ == v@.take(i as int),
        decreases v@.len() - i,
    {
        r.push((v[i].0.clone(), v[i].1.clone()));
        assert(v@.take(i + 1) =~= v@.take(i as int).push(v@[i as int]));
        i += 1;
    }
    assert(v@.take(v@.len() as int) =~= v@);
    r
}

impl MCPServer {
    /// A copy of the server's record.
    pub fn duplicate(&self) -> (r: MCPServer)
        ensures
            r.id == self.id,
            r.name == self.name,
            r.command == self.command,
            r.args@ == self.args@,
            r.env@ == self.env@,
            r.enabled == self.enabled,
            r.connected == self.connected,
            r.last_error == self.last_error,
            r.created_at == self.created_at,
            r.last_connected == self.last_connected,
    {
        MCPServer {
            id: self.id.clone(),
            name: self.name.clone(),
            command: self.command.clone(),
            args: copy_strings(&self.args),
            env: copy_pairs(&self.env),
            enabled: self.enabled,
            connected: self.connected,
            last_error: match &self.last_error {
                Some(e) => Some(e.clone()),
                None => None,
            },
            created_at: self.created_at,
            last_connected: self.last_connected,
        }
    }
}

impl MCPTool {
    /// A copy of the tool.
    pub fn duplicate(&self) -> (r: MCPTool)
        ensures
            r == *self,
    {
        MCPTool {
            name: self.name.clone(),
            description: match &self.description {
                Some(d) => Some(d.clone()),
                None => None,
            },
            input_schema: self.input_schema.clone(),
        }
    }
}

/// The tool every connected server is taken to offer until tool discovery
/// reads the server's answer.
pub open spec fn example_tool(t: MCPTool) -> bool {
    &&& t.name@ == "example_tool"@
    &&& t.description matches Some(d) && d@ == "An example tool from this MCP server"@
    &&& t.input_schema@ == "{\"type\":\"object\",\"properties\":{\"input\":{\"type\":\"string\",\"description\":\"Input parameter\"}},\"required\":[\"input\"]}"@
}

/// The server map and the connection map have distinct keys, and each
/// server is stored under its id.
pub open spec fn registry_wf(m: MCPManager) -> bool {
    &&& m.servers.wf()
    &&& m.connections.wf()
    &&& forall|k: Seq<char>| #[trigger] m.servers@.contains_key(k) ==> m.servers@[k].id@ == k
}

/// `after` is `before` with only its status fields (enabled, connected,
/// last connection, last error, tools) changed.
pub open spec fn only_status_changed(before: MCPServer, after: MCPServer) -> bool {
    &&& after.id == before.id
    &&& after.name == before.name
    &&& after.command == before.command
    &&& after.args == before.args
    &&& after.env == before.env
    &&& after.created_at == before.created_at
}

/// `r` is a copy of the record `s`.
pub open spec fn copy_of(r: MCPServer, s: MCPServer) -> bool {
    &&& r.id == s.id
    &&& r.name == s.name
    &&& r.command == s.command
    &&& r.args@ == s.args@
    &&& r.env@ == s.env@
    &&& r.enabled == s.enabled
    &&& r.connected == s.connected
    &&& r.last_error == s.last_error
    &&& r.created_at == s.created_at
    &&& r.last_connected == s.last_connected
}

/// The listed tools with the id of their server.
pub open spec fn pair_views(v: Seq<(String, MCPTool)>) -> Seq<(Seq<char>, MCPTool)> {
    v.map_values(|p: (String, MCPTool)| (p.0@, p.1))
}

/// The tools of the connected ones among the first `n` connections, each
/// with its connection's id, in order.
pub open spec fn tools_listed(keys: Seq<Seq<char>>, conns: Seq<MCPConnection>, n: nat) -> Seq<(Seq<char>, MCPTool)>
    decreases n,
{
    if n == 0 {
        seq![]
    } else {
        let p = tools_listed(keys, conns, (n - 1) as nat);
        if conns[n - 1].connected {
            p + conns[n - 1].tools@.map_values(|t: MCPTool| (keys[n - 1], t))
        } else {
            p
        }
    }
}

/// The ids of the enabled ones among the first `n` servers, in order.
pub open spec fn enabled_ids(keys: Seq<Seq<char>>, servers: Seq<MCPServer>, n: nat) -> Seq<Seq<char>>
    decreases n,
{
    if n == 0 {
        seq![]
    } else {
        let p = enabled_ids(keys, servers, (n - 1) as nat);
        if servers[n - 1].enabled {
            p.push(keys[n - 1])
        } else {
            p
        }
    }
}

impl MCPManager {
    /// The registry is well formed.
    pub open spec fn wf(&self) -> bool {
        registry_wf(*self)
    }

    /// No servers, no connections.
    pub fn new() -> (r: Self)
        ensures
            r.wf(),
            r.servers@ == Map::<Seq<char>, MCPServer>::empty(),
            r.connections@ == Map::<Seq<char>, MCPConnection>::empty(),
    {
        MCPManager { servers: StrMap::new(), connections: StrMap::new() }
    }

    /// Registers a server under a fresh id, disabled and not connected,
    /// created at `now`, and returns a copy of its record.
    pub fn add_server(&mut self, config: MCPServerConfig, now: Stamp) -> (r: Result<MCPServer, String>)
        requires
            old(self).wf(),
        ensures
            final(self).wf(),
            r matches Ok(s) && final(self).servers@.contains_key(s.id@) && {
                let t = final(self).servers@[s.id@];
                &&& s.name == config.name && t.name == config.name
                &&& s.command == config.command && t.command == config.command
                &&& s.args@ == config.args@ && t.args@ == config.args@
                &&& s.env@ == config.env@ && t.env@ == config.env@
                &&& !s.enabled && !t.enabled
                &&& !s.connected && !t.connected
                &&& s.last_error is None && t.last_error is None
                &&& s.created_at == now && t.created_at == now
                &&& s.last_connected is None && t.last_connected is None
            } && final(self).servers@.remove(s.id@) == old(self).servers@.remove(s.id@),
            final(self).connections == old(self).connections,
    {
        let id = new_uuid();
        let server = MCPServer {
            id: id.clone(),
            name: config.name,
            command: config.command,
            args: config.args,
            env: config.env,
            enabled: false,
            connected: false,
            last_error: None,
            created_at: now,
            last_connected: None,
        };
        let copy = server.duplicate();
        let ghost sid = id@;
        self.servers.insert(id, server);
        proof {
            assert forall|k: Seq<char>| #[trigger] self.servers@.contains_key(k) implies self.servers@[k].id@ == k by {
                if k != sid {
                    assert(old(self).servers@.contains_key(k));
                }
            }
            assert(self.servers@.remove(sid) =~= old(self).servers@.remove(sid));
        }
        Ok(copy)
    }

    /// Forgets a server and its connection (whose process is then to be
    /// stopped).
    pub fn remove_server(&mut self, server_id: &str) -> (r: Result<(), String>)
        requires
            old(self).wf(),
        ensures
            final(self).wf(),
            r is Ok,
            final(self).servers@ == old(self).servers@.remove(server_id@),
            final(self).connections@ == old(self).connections@.remove(server_id@),
    {
        let _ = self.connections.remove(server_id);
        let _ = self.servers.remove(server_id);
        proof {
            assert forall|k: Seq<char>| #[trigger] self.servers@.contains_key(k) implies self.servers@[k].id@ == k by {
                assert(old(self).servers@.contains_key(k));
            }
        }
        Ok(())
    }

    /// Changes the status fields of a registered server.
    fn set_status(&mut self, p: usize, enabled: bool, connected: bool, last_error: Option<String>, last_connected: Option<Stamp>)
        requires
            old(self).wf(),
            p < old(self).servers.keys().len(),
        ensures
            final(self).wf(),
            final(self).connections == old(self).connections,
            ({
                let k = old(self).servers.keys()[p as int];
                let before = old(self).servers@[k];
                let after = final(self).servers@[k];
                &&& final(self).servers@.contains_key(k)
                &&& final(self).servers@.remove(k) == old(self).servers@.remove(k)
                &&& only_status_changed(before, after)
                &&& after.enabled == enabled
                &&& after.connected == connected
                &&& after.last_error == last_error
                &&& after.last_connected == last_connected
            }),
    {
        proof { self.servers.lemma_view(); }
        let placeholder = MCPServer {
            id: String::new(),
            name: String::new(),
            command: String::new(),
            args: Vec::new(),
            env: Vec::new(),
            enabled: false,
            connected: false,
            last_error: None,
            created_at: Stamp { secs: 0, nanos: 0 },
            last_connected: None,
        };
        let ghost k = self.servers.keys()[p as int];
        let mut s = self.servers.replace_at(p, placeholder);
        assert(old(self).servers@.contains_key(k));
        s.enabled = enabled;
        s.connected = connected;
        s.last_error = last_error;
        s.last_connected = last_connected;
        let _ = self.servers.replace_at(p, s);
        proof {
            assert forall|q: Seq<char>| #[trigger] self.servers@.contains_key(q) implies self.servers@[q].id@ == q by {
                if q != k {
                    assert(old(self).servers@.contains_key(q));
                }
            }
            assert(self.servers@.remove(k) =~= old(self).servers@.remove(k));
        }
    }

    /// Enables or disables a server; an unknown id is an error. The result
    /// says whether the server is to be disconnected (it is when disabled).
    pub fn toggle_server(&mut self, server_id: &str, enabled: bool) -> (r: Result<bool, String>)
        requires
            old(self).wf(),
        ensures
            final(self).wf(),
            final(self).connections == old(self).connections,
            !old(self).servers@.contains_key(server_id@) ==> (r matches Err(e) && e@ == "Server not found"@)
                && final(self).servers@ == old(self).servers@,
            old(self).servers@.contains_key(server_id@) ==> r == Ok::<bool, String>(!enabled) && ({
                let before = old(self).servers@[server_id@];
                let after = final(self).servers@[server_id@];
                &&& final(self).servers@.contains_key(server_id@)
                &&& final(self).servers@.remove(server_id@) == old(self).servers@.remove(server_id@)
                &&& only_status_changed(before, after)
                &&& after.enabled == enabled
                &&& after.connected == before.connected
                &&& after.last_error == before.last_error
                &&& after.last_connected == before.last_connected
            }),
    {
        proof { self.servers.lemma_view(); }
        match self.servers.position(server_id) {
            None => Err(owned("Server not found")),
            Some(p) => {
                let (_k, s) = self.servers.entry_at(p);
                let connected = s.connected;
                let last_error = match &s.last_error {
                    Some(e) => Some(e.clone()),
                    None => None,
                };
                let last_connected = s.last_connected;
                self.set_status(p, enabled, connected, last_error, last_connected);
                Ok(!enabled)
            },
        }
    }

    /// Checks that a server may be connected and returns a copy of its
    /// record to start it from: an unknown id or a disabled server is an
    /// error.
    pub fn connect_plan(&self, server_id: &str) -> (r: Result<MCPServer, String>)
        requires
            self.wf(),
        ensures
            !self.servers@.contains_key(server_id@) ==> (r matches Err(e) && e@ == "Server not found"@),
            self.servers@.contains_key(server_id@) && !self.servers@[server_id@].enabled ==> (r matches Err(e) && e@
                == "Server is not enabled"@),
            self.servers@.contains_key(server_id@) && self.servers@[server_id@].enabled ==> (r matches Ok(s)
                && s.id == self.servers@[server_id@].id && s.command == self.servers@[server_id@].command
                && s.args@ == self.servers@[server_id@].args@ && s.env@ == self.servers@[server_id@].env@),
    {
        match self.servers.get(server_id) {
            None => Err(owned("Server not found")),
            Some(s) => {
                if !s.enabled {
                    Err(owned("Server is not enabled"))
                } else {
                    Ok(s.duplicate())
                }
            },
        }
    }

    /// Records a connection whose handshake is under way.
    pub fn open_connection(&mut self, server_id: &str)
        requires
            old(self).wf(),
        ensures
            final(self).wf(),
            final(self).servers == old(self).servers,
            final(self).connections@.contains_key(server_id@),
            !final(self).connections@[server_id@].connected,
            final(self).connections@[server_id@].tools@.len() == 0,
            final(self).connections@.remove(server_id@) == old(self).connections@.remove(server_id@),
    {
        self.connections.insert(owned(server_id), MCPConnection { connected: false, tools: Vec::new() });
        assert(self.connections@.remove(server_id@) =~= old(self).connections@.remove(server_id@));
    }

    /// Records that tool discovery finished for a connection: it offers the
    /// example tool and counts as connected.
    pub fn record_tools(&mut self, server_id: &str)
        requires
            old(self).wf(),
        ensures
            final(self).wf(),
            final(self).servers == old(self).servers,
            old(self).connections@.contains_key(server_id@) ==> final(self).connections@.contains_key(server_id@)
                && final(self).connections@[server_id@].connected && final(self).connections@[server_id@].tools@.len()
                == 1 && example_tool(final(self).connections@[server_id@].tools@[0])
                && final(self).connections@.remove(server_id@) == old(self).connections@.remove(server_id@),
            !old(self).connections@.contains_key(server_id@) ==> final(self).connections@ == old(self).connections@,
    {
        if self.connections.contains_key(server_id) {
            let tool = MCPTool {
                name: owned("example_tool"),
                description: Some(owned("An example tool from this MCP server")),
                input_schema: owned(
                    "{\"type\":\"object\",\"properties\":{\"input\":{\"type\":\"string\",\"description\":\"Input parameter\"}},\"required\":[\"input\"]}",
                ),
            };
            self.connections.insert(owned(server_id), MCPConnection { connected: true, tools: vec![tool] });
            assert(self.connections@.remove(server_id@) =~= old(self).connections@.remove(server_id@));
        }
    }

    /// Records a completed handshake: the server is connected at `now` with
    /// no error.
    pub fn mark_connected(&mut self, server_id: &str, now: Stamp)
        requires
            old(self).wf(),
        ensures
            final(self).wf(),
            final(self).connections == old(self).connections,
            !old(self).servers@.contains_key(server_id@) ==> final(self).servers@ == old(self).servers@,
            old(self).servers@.contains_key(server_id@) ==> ({
                let before = old(self).servers@[server_id@];
                let after = final(self).servers@[server_id@];
                &&& final(self).servers@.contains_key(server_id@)
                &&& final(self).servers@.remove(server_id@) == old(self).servers@.remove(server_id@)
                &&& only_status_changed(before, after)
                &&& after.enabled == before.enabled
                &&& after.connected
                &&& after.last_error is None
                &&& after.last_connected == Some(now)
            }),
    {
        proof { self.servers.lemma_view(); }
        match self.servers.position(server_id) {
            None => {},
            Some(p) => {
                let (_k, s) = self.servers.entry_at(p);
                let enabled = s.enabled;
                self.set_status(p, enabled, true, None, Some(now));
            },
        }
    }

    /// Records a failed connection: its record is dropped and the server is
    /// not connected, with the error kept.
    pub fn mark_failed(&mut self, server_id: &str, error: String)
        requires
            old(self).wf(),
        ensures
            final(self).wf(),
            final(self).connections@ == old(self).connections@.remove(server_id@),
            !old(self).servers@.contains_key(server_id@) ==> final(self).servers@ == old(self).servers@,
            old(self).servers@.contains_key(server_id@) ==> ({
                let before = old(self).servers@[server_id@];
                let after = final(self).servers@[server_id@];
                &&& final(self).servers@.contains_key(server_id@)
                &&& final(self).servers@.remove(server_id@) == old(self).servers@.remove(server_id@)
                &&& only_status_changed(before, after)
                &&& after.enabled == before.enabled
                &&& !after.connected
                &&& after.last_error == Some(error)
                &&& after.last_connected == before.last_connected
            }),
    {
        let _ = self.connections.remove(server_id);
        proof { self.servers.lemma_view(); }
        match self.servers.position(server_id) {
            None => {},
            Some(p) => {
                let (_k, s) = self.servers.entry_at(p);
                let enabled = s.enabled;
                let last_connected = s.last_connected;
                self.set_status(p, enabled, false, Some(error), last_connected);
            },
        }
    }

    /// Drops a connection's record (whose process is then to be stopped)
    /// and marks the server not connected.
    pub fn disconnect_server(&mut self, server_id: &str) -> (r: Result<(), String>)
        requires
            old(self).wf(),
        ensures
            final(self).wf(),
            r is Ok,
            final(self).connections@ == old(self).connections@.remove(server_id@),
            !old(self).servers@.contains_key(server_id@) ==> final(self).servers@ == old(self).servers@,
            old(self).servers@.contains_key(server_id@) ==> ({
                let before = old(self).servers@[server_id@];
                let after = final(self).servers@[server_id@];
                &&& final(self).servers@.contains_key(server_id@)
                &&& final(self).servers@.remove(server_id@) == old(self).servers@.remove(server_id@)
                &&& only_status_changed(before, after)
                &&& after.enabled == before.enabled
                &&& !after.connected
                &&& after.last_error == before.last_error
                &&& after.last_connected == before.last_connected
            }),
    {
        let _ = self.connections.remove(server_id);
        proof { self.servers.lemma_view(); }
        match self.servers.position(server_id) {
            None => {},
            Some(p) => {
                let (_k, s) = self.servers.entry_at(p);
                let enabled = s.enabled;
                let last_error = match &s.last_error {
                    Some(e) => Some(e.clone()),
                    None => None,
                };
                let last_connected = s.last_connected;
                self.set_status(p, enabled, false, last_error, last_connected);
            },
        }
        Ok(())
    }

    /// Whether a connection has completed its handshake (then a connection
    /// test succeeds at once).
    pub fn is_connected(&self, server_id: &str) -> (r: bool)
        requires
            self.wf(),
        ensures
            r == (self.connections@.contains_key(server_id@) && self.connections@[server_id@].connected),
    {
        match self.connections.get(server_id) {
            Some(c) => c.connected,
            None => false,
        }
    }

    /// The tools of every connected server, with the server's id, in the
    /// order the connections were made.
    pub fn list_all_tools(&self) -> (r: Vec<(String, MCPTool)>)
        requires
            self.wf(),
        ensures
            pair_views(r@) == tools_listed(
                self.connections.keys(),
                self.connections.values(),
                self.connections.keys().len(),
            ),
    {
        proof { self.connections.lemma_view(); }
        let ghost ks = self.connections.keys();
        let ghost vs = self.connections.values();
        let n = self.connections.len();
        let mut r: Vec<(String, MCPTool)> = Vec::new();
        let mut i: usize = 0;
        while i < n
            invariant
                self.wf(),
                ks == self.connections.keys(),
                vs == self.connections.values(),
                n == ks.len(),
                i <= n,
                pair_views(r@) == tools_listed(ks, vs, i as nat),
            decreases n - i,
        {
            let (k, c) = self.connections.entry_at(i);
            let ghost before = pair_views(r@);
            if c.connected {
                let mut t: usize = 0;
                while t < c.tools.len()
                    invariant
                        ks[i as int] == k@,
                        vs[i as int] == *c,
                        t <= c.tools@.len(),
                        pair_views(r@) == before + c.tools@.take(t as int).map_values(|x: MCPTool| (k@, x)),
                    decreases c.tools@.len() - t,
                {
                    let tool = c.tools[t].duplicate();
                    let ghost prev = r@;
                    r.push((k.clone(), tool));
                    proof {
                        assert(pair_views(r@) =~= pair_views(prev).push((k@, tool)));
                        assert(c.tools@.take(t + 1).map_values(|x: MCPTool| (k@, x)) =~= c.tools@.take(
                            t as int,
                        ).map_values(|x: MCPTool| (k@, x)).push((k@, c.tools@[t as int])));
                    }
                    t += 1;
                }
                assert(c.tools@.take(c.tools@.len() as int) =~= c.tools@);
            }
            i += 1;
        }
        r
    }

    /// Copies of every server's record, in the order they were added.
    pub fn list_servers(&self) -> (r: Vec<MCPServer>)
        requires
            self.wf(),
        ensures
            r@.len() == self.servers.keys().len(),
            forall|j: int| 0 <= j < r@.len() ==> (#[trigger] r@[j]).id@ == self.servers.keys()[j],
            forall|j: int| 0 <= j < r@.len() ==> copy_of(#[trigger] r@[j], self.servers.values()[j]),
    {
        proof { self.servers.lemma_view(); }
        let n = self.servers.len();
        let mut r: Vec<MCPServer> = Vec::new();
        let mut i: usize = 0;
        while i < n
            invariant
                self.wf(),
                n == self.servers.keys().len(),
                i <= n,
                r@.len() == i,
                forall|j: int| 0 <= j < i ==> (#[trigger] r@[j]).id@ == self.servers.keys()[j],
                forall|j: int| 0 <= j < i ==> copy_of(#[trigger] r@[j], self.servers.values()[j]),
            decreases n - i,
        {
            let (k, s) = self.servers.entry_at(i);
            r.push(s.duplicate());
            i += 1;
        }
        r
    }

    /// The ids of the enabled servers, in the order they were added; they
    /// are connected on start-up.
    pub fn enabled_server_ids(&self) -> (r: Vec<String>)
        requires
            self.wf(),
        ensures
            r@.map_values(|s: String| s@) == enabled_ids(
                self.servers.keys(),
                self.servers.values(),
                self.servers.keys().len(),
            ),
    {
        proof { self.servers.lemma_view(); }
        let ghost ks = self.servers.keys();
        let ghost vs = self.servers.values();
        let n = self.servers.len();
        let mut r: Vec<String> = Vec::new();
        let mut i: usize = 0;
        while i < n
            invariant
                self.wf(),
                ks == self.servers.keys(),
                vs == self.servers.values(),
                n == ks.len(),
                i <= n,
                r@.map_values(|s: String| s@) == enabled_ids(ks, vs, i as nat),
            decreases n - i,
        {
            let (k, s) = self.servers.entry_at(i);
            if s.enabled {
                let ghost prev = r@;
                r.push(k.clone());
                assert(r@.map_values(|s: String| s@) =~= prev.map_values(|s: String| s@).push(k@));
            }
            i += 1;
        }
        r
    }
}

/// The text a tool call answers with until the server's reply is read.
pub fn tool_call_text(tool_name: &str, server_id: &str) -> (r: String)
    ensures
        r@ == "Mock response from tool '"@ + tool_name@ + "' on server '"@ + server_id@ + "'"@,
{
    let parts = ["Mock response from tool '", tool_name, "' on server '", server_id, "'"];
    let r = concat_parts(&parts);
    proof {
        reveal_with_fuel(concat_views, 6);
    }
    r
}

} // verus!
