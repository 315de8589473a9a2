use vstd::prelude::*;

use crate::config::McpServerConfig;
use crate::text::{
    chars_of, find_from, find_from_exec, lemma_find_from, push_range, push_str, starts_with,
    starts_with_chars, str_eq, string_of,
};
use crate::tools::{json_string_field, tool_views, Tool, ToolFunction, ToolView};

verus! {

broadcast use vstd::string::group_string_axioms;

/// Why an MCP step failed.
#[derive(Debug)]
pub enum McpError {
    /// A tool name without the two underscores of `mcp_<server>_<tool>`.
    InvalidToolName(String),
    /// No connected server has this name.
    ServerNotFound(String),
    /// A remote server entry without a URL; the server's name.
    MissingUrl(String),
    /// A local server entry without a command; the server's name.
    MissingCommand(String),
    /// The arguments of a tool call are not JSON; the parser's message.
    InvalidArguments(String),
}

/// The text of an MCP error.
pub open spec fn mcp_error_text(e: &McpError) -> Seq<char> {
    match e {
        McpError::InvalidToolName(n) => "Invalid MCP tool name format: "@ + n@,
        McpError::ServerNotFound(s) => "MCP server '"@ + s@ + "' not found"@,
        McpError::MissingUrl(s) => "Remote MCP server "@ + s@ + " missing URL"@,
        McpError::MissingCommand(s) => "Local MCP server "@ + s@ + " missing command"@,
        McpError::InvalidArguments(m) => m@,
    }
}

impl McpError {
    /// The text of this error.
    pub fn message(&self) -> (s: String)
        ensures
            s@ == mcp_error_text(self),
    {
        let mut v: Vec<char> = Vec::new();
        match self {
            McpError::InvalidToolName(n) => {
                push_str(&mut v, "Invalid MCP tool name format: ");
                push_str(&mut v, n.as_str());
            },
            McpError::ServerNotFound(s) => {
                push_str(&mut v, "MCP server '");
                push_str(&mut v, s.as_str());
                push_str(&mut v, "' not found");
            },
            McpError::MissingUrl(s) => {
                push_str(&mut v, "Remote MCP server ");
                push_str(&mut v, s.as_str());
                push_str(&mut v, " missing URL");
            },
            McpError::MissingCommand(s) => {
                push_str(&mut v, "Local MCP server ");
                push_str(&mut v, s.as_str());
                push_str(&mut v, " missing command");
            },
            McpError::InvalidArguments(m) => {
                push_str(&mut v, m.as_str());
            },
        }
        assert(v@ =~= mcp_error_text(self));
        string_of(v.as_slice())
    }
}

/// The name under which a server's tool is offered to the model.
pub open spec fn mcp_tool_name(server: Seq<char>, tool: Seq<char>) -> Seq<char> {
    "mcp_"@ + server + "_"@ + tool
}

/// A tool of an MCP server: its name, its description if it has one, and the
/// JSON text of its input schema.
pub struct McpToolInfo {
    pub name: String,
    pub description: Option<String>,
    pub input_schema: String,
}

/// The tool a server's tool becomes: named with the server, described as the
/// server describes it (or not at all), with the server's schema.
pub open spec fn offered_tool(server: Seq<char>, t: McpToolInfo) -> ToolView {
    ToolView {
        tool_type: "function"@,
        name: mcp_tool_name(server, t.name@),
        description: match t.description {
            Some(d) => d@,
            None => Seq::empty(),
        },
        parameters: t.input_schema@,
    }
}

/// The tools of one server as offered to the model, in the server's order.
pub fn offered_tools(server: &str, tools: &Vec<McpToolInfo>) -> (r: Vec<Tool>)
    ensures
        tool_views(r@) == tools@.map_values(|t: McpToolInfo| offered_tool(server@, t)),
{
    let mut r: Vec<Tool> = Vec::new();
    let mut i: usize = 0;
    while i < tools.len()
        invariant
            i <= tools.len(),
            r.len() == i,
            tool_views(r@) == tools@.take(i as int).map_values(
                |t: McpToolInfo| offered_tool(server@, t),
            ),
        decreases tools.len() - i,
    {
        let t = &tools[i];
        let mut name: Vec<char> = Vec::new();
        push_str(&mut name, "mcp_");
        push_str(&mut name, server);
        push_str(&mut name, "_");
        push_str(&mut name, t.name.as_str());
        let description = match &t.description {
            Some(d) => d.clone(),
            None => String::new(),
        };
        let ghost prev = r@;
        r.push(
            Tool {
                tool_type: "function".to_string(),
                function: ToolFunction {
                    name: string_of(name.as_slice()),
                    description,
                    parameters: t.input_schema.clone(),
                },
            },
        );
        proof {
            assert(r@ =~= prev.push(r@[i as int]));
            assert(r@[i as int]@ == offered_tool(server@, tools@[i as int]));
            assert(tool_views(r@) =~= tool_views(prev).push(r@[i as int]@));
            assert(tools@.take(i + 1).map_values(|t: McpToolInfo| offered_tool(server@, t))
                =~= tools@.take(i as int).map_values(
                |t: McpToolInfo| offered_tool(server@, t),
            ).push(offered_tool(server@, tools@[i as int])));
            assert(tools@.take(i + 1) =~= tools@.take(i as int).push(tools@[i as int]));
            assert(tool_views(r@) =~= tools@.take(i + 1).map_values(
                |t: McpToolInfo| offered_tool(server@, t),
            ));
        }
        i = i + 1;
    }
    assert(tools@.take(tools.len() as int) =~= tools@);
    r
}

/// The text of a tool's output: its parts on separate lines, or `No result`
/// when that is empty.
pub open spec fn tool_output_text(parts: Seq<Seq<char>>) -> Seq<char> {
    let joined = crate::agent::join(parts, "\n"@);
    if joined.len() == 0 {
        "No result"@
    } else {
        joined
    }
}

/// The text of a tool's output.
pub fn tool_output(parts: &Vec<String>) -> (s: String)
    ensures
        s@ == tool_output_text(crate::order::str_views(parts@)),
{
    let ghost ps = crate::order::str_views(parts@);
    let mut v: Vec<char> = Vec::new();
    let mut i: usize = 0;
    while i < parts.len()
        invariant
            i <= parts.len(),
            ps == crate::order::str_views(parts@),
            v@ == crate::agent::join(ps.take(i as int), "\n"@),
        decreases parts.len() - i,
    {
        if i > 0 {
            push_str(&mut v, "\n");
        }
        push_str(&mut v, parts[i].as_str());
        proof {
            let t = ps.take(i + 1);
            assert(t.drop_last() =~= ps.take(i as int));
            if i == 0 {
                assert(ps.take(0) =~= Seq::<Seq<char>>::empty());
            }
            assert(v@ =~= crate::agent::join(t, "\n"@));
        }
        i = i + 1;
    }
    assert(ps.take(parts.len() as int) =~= ps);
    if v.len() == 0 {
        "No result".to_string()
    } else {
        string_of(v.as_slice())
    }
}

/// How to connect to a server.
pub enum ConnectionPlan {
    /// Run `command` with `args` and extra environment `env`.
    Local { command: String, args: Option<Vec<String>>, env: Option<Vec<(String, String)>> },
    /// Talk to the server at `url`.
    Remote { url: String },
}

/// The characters of optional arguments.
pub open spec fn opt_strs(o: Option<Vec<String>>) -> Option<Seq<Seq<char>>> {
    match o {
        Some(v) => Some(crate::order::str_views(v@)),
        None => None,
    }
}

/// The characters of optional environment pairs.
pub open spec fn opt_pairs(o: Option<Vec<(String, String)>>) -> Option<Seq<(Seq<char>, Seq<char>)>> {
    match o {
        Some(v) => Some(crate::order::pair_views(v@)),
        None => None,
    }
}

/// The kind of a server entry: remote only when it says `"remote"`.
pub open spec fn is_remote(cfg: McpServerConfig) -> bool {
    cfg.server_type matches Some(t) && t@ == "remote"@
}

/// How the server `name` with the entry `cfg` is to be reached: nothing for a
/// disabled entry, else its URL (remote) or its command with its arguments
/// and environment (local), or the error for the missing one.
pub open spec fn plan_for(
    name: Seq<char>,
    cfg: McpServerConfig,
    r: Result<Option<ConnectionPlan>, McpError>,
) -> bool {
    &&& (!cfg.enabled ==> r matches Ok(None))
    &&& cfg.enabled && is_remote(cfg) ==> match cfg.url {
        Some(u) => r matches Ok(Some(ConnectionPlan::Remote { url })) && url@ == u@,
        None => r matches Err(McpError::MissingUrl(n)) && n@ == name,
    }
    &&& cfg.enabled && !is_remote(cfg) ==> match cfg.command {
        Some(c) => r matches Ok(Some(ConnectionPlan::Local { command, args, env })) && command@
            == c@ && opt_strs(args) == opt_strs(cfg.args) && opt_pairs(env) == opt_pairs(cfg.env),
        None => r matches Err(McpError::MissingCommand(n)) && n@ == name,
    }
}

/// How to connect to the server `name`: nothing for a disabled entry, else
/// its URL (remote) or command (local), or the error for the missing one.
pub fn plan_connection(name: &str, cfg: &McpServerConfig) -> (r: Result<
    Option<ConnectionPlan>,
    McpError,
>)
    ensures
        plan_for(name@, *cfg, r),
{
    if !cfg.enabled {
        return Ok(None);
    }
    let remote = match &cfg.server_type {
        Some(t) => str_eq(t.as_str(), "remote"),
        None => false,
    };
    if remote {
        match &cfg.url {
            Some(u) => Ok(Some(ConnectionPlan::Remote { url: u.clone() })),
            None => Err(McpError::MissingUrl(name.to_string())),
        }
    } else {
        match &cfg.command {
            Some(c) => Ok(
                Some(
                    ConnectionPlan::Local {
                        command: c.clone(),
                        args: match &cfg.args {
                            Some(a) => Some(crate::config::dup_strings(a)),
                            None => None,
                        },
                        env: match &cfg.env {
                            Some(e) => Some(crate::config::dup_pairs(e)),
                            None => None,
                        },
                    },
                ),
            ),
            None => Err(McpError::MissingCommand(name.to_string())),
        }
    }
}

} // verus!

verus! {

/// The server and tool names in `mcp_<server>_<tool>`, as `splitn(3, '_')`
/// cuts it: the server lies between the first two underscores, the tool is
/// all after the second; `None` without two underscores.
pub open spec fn split_tool_name(s: Seq<char>) -> Option<(Seq<char>, Seq<char>)> {
    match find_from(s, "_"@, 0) {
        None => None,
        Some(i) => match find_from(s, "_"@, i + 1) {
            None => None,
            Some(j) => Some((s.subrange(i + 1, j), s.skip(j + 1))),
        },
    }
}

/// A connected server by name and the tools it offers.
pub struct McpServerTools {
    pub name: String,
    pub tools: Vec<Tool>,
}

/// The connected MCP servers, in the order they connected.
pub struct McpManager {
    connections: Vec<McpServerTools>,
}

/// The servers of a sequence, by name and tools.
pub open spec fn server_views(s: Seq<McpServerTools>) -> Seq<(Seq<char>, Seq<ToolView>)> {
    s.map_values(|c: McpServerTools| (c.name@, tool_views(c.tools@)))
}

/// All the tools of the servers, server after server.
pub open spec fn all_tools(s: Seq<(Seq<char>, Seq<ToolView>)>) -> Seq<ToolView>
    decreases s.len(),
{
    if s.len() == 0 {
        Seq::empty()
    } else {
        all_tools(s.drop_last()) + s.last().1
    }
}

/// The position of the first server with the given name.
pub open spec fn server_index(s: Seq<(Seq<char>, Seq<ToolView>)>, name: Seq<char>) -> Option<int>
    decreases s.len(),
{
    if s.len() == 0 {
        None
    } else if s[0].0 == name {
        Some(0)
    } else {
        match server_index(s.drop_first(), name) {
            Some(i) => Some(i + 1),
            None => None,
        }
    }
}

proof fn lemma_server_index(s: Seq<(Seq<char>, Seq<ToolView>)>, name: Seq<char>)
    ensures
        server_index(s, name) matches Some(i) ==> 0 <= i < s.len() && s[i].0 == name && forall|
            k: int,
        | 0 <= k < i ==> s[k].0 != name,
        server_index(s, name) is None ==> forall|k: int| 0 <= k < s.len() ==> s[k].0 != name,
    decreases s.len(),
{
    if s.len() > 0 {
        lemma_server_index(s.drop_first(), name);
        if s[0].0 != name {
            assert forall|k: int| 1 <= k < s.len() implies s[k] == s.drop_first()[k - 1] by {}
        }
    }
}

impl View for McpManager {
    type V = Seq<(Seq<char>, Seq<ToolView>)>;

    closed spec fn view(&self) -> Seq<(Seq<char>, Seq<ToolView>)> {
        server_views(self.connections@)
    }
}

fn dup_tools(v: &Vec<Tool>) -> (r: Vec<Tool>)
    ensures
        tool_views(r@) == tool_views(v@),
{
    let mut r: Vec<Tool> = Vec::new();
    let mut i: usize = 0;
    while i < v.len()
        invariant
            i <= v.len(),
            r.len() == i,
            tool_views(r@) == tool_views(v@.take(i as int)),
        decreases v.len() - i,
    {
        let ghost prev = r@;
        r.push(v[i].duplicate());
        assert(r@ =~= prev.push(r@[i as int]));
        assert(v@.take(i + 1) =~= v@.take(i as int).push(v@[i as int]));
        assert(tool_views(r@) =~= tool_views(prev).push(v@[i as int]@));
        assert(tool_views(r@) =~= tool_views(v@.take(i + 1)));
        i = i + 1;
    }
    assert(v@.take(v.len() as int) =~= v@);
    r
}

fn first_index(conns: &Vec<McpServerTools>, name: &str) -> (r: Option<usize>)
    ensures
        match r {
            Some(i) => server_index(server_views(conns@), name@) == Some(i as int),
            None => server_index(server_views(conns@), name@) is None,
        },
{
    let ghost sv = server_views(conns@);
    proof {
        lemma_server_index(sv, name@);
    }
    let mut i: usize = 0;
    while i < conns.len()
        invariant
            i <= conns.len(),
            sv == server_views(conns@),
            forall|k: int| 0 <= k < i ==> sv[k].0 != name@,
            server_index(sv, name@) matches Some(j) ==> i <= j && sv[j].0 == name@ && forall|
                k: int,
            | 0 <= k < j ==> sv[k].0 != name@,
            server_index(sv, name@) is None ==> forall|k: int|
                0 <= k < sv.len() ==> sv[k].0 != name@,
        decreases conns.len() - i,
    {
        if str_eq(conns[i].name.as_str(), name) {
            assert(sv[i as int].0 == name@);
            return Some(i);
        }
        i = i + 1;
    }
    None
}

impl McpManager {
    /// No servers.
    pub fn new() -> (m: Self)
        ensures
            m@ == Seq::<(Seq<char>, Seq<ToolView>)>::empty(),
    {
        let m = McpManager { connections: Vec::new() };
        assert(m@ =~= Seq::<(Seq<char>, Seq<ToolView>)>::empty());
        m
    }

    /// Records a server that connected, with the tools it offers.
    pub fn add_connection(&mut self, name: String, tools: Vec<Tool>)
        ensures
            final(self)@ == old(self)@.push((name@, tool_views(tools@))),
    {
        self.connections.push(McpServerTools { name, tools });
        assert(server_views(self.connections@) =~= old(self)@.push(
            (name@, tool_views(tools@)),
        ));
    }

    /// The number of servers.
    pub fn len(&self) -> (n: usize)
        ensures
            n == self@.len(),
    {
        self.connections.len()
    }

    /// The tools of all servers, server after server.
    pub fn get_all_tools(&self) -> (r: Vec<Tool>)
        ensures
            tool_views(r@) == all_tools(self@),
    {
        let mut r: Vec<Tool> = Vec::new();
        let mut i: usize = 0;
        while i < self.connections.len()
            invariant
                i <= self.connections.len(),
                tool_views(r@) == all_tools(self@.take(i as int)),
            decreases self.connections.len() - i,
        {
            let mut ts = dup_tools(&self.connections[i].tools);
            let ghost before = tool_views(r@);
            let ghost added = tool_views(ts@);
            r.append(&mut ts);
            proof {
                let t = self@.take(i + 1);
                assert(t.drop_last() =~= self@.take(i as int));
                assert(t.last().1 == added);
                assert(tool_views(r@) =~= before + added);
            }
            i = i + 1;
        }
        assert(self@.take(self.connections.len() as int) =~= self@);
        r
    }

    /// Whether a tool name is one of the MCP servers' (it starts with `mcp_`).
    pub fn is_mcp_tool(&self, tool_name: &str) -> (b: bool)
        ensures
            b == starts_with(tool_name@, "mcp_"@),
    {
        let n = chars_of(tool_name);
        let p = chars_of("mcp_");
        starts_with_chars(n.as_slice(), p.as_slice())
    }

    /// The server that runs the tool `full_name` and the tool's name there:
    /// the server named between the first two underscores, the tool named by
    /// the rest.
    pub fn route_tool(&self, full_name: &str) -> (r: Result<(usize, String), McpError>)
        ensures
            match split_tool_name(full_name@) {
                None => r matches Err(McpError::InvalidToolName(n)) && n@ == full_name@,
                Some((server, tool)) => match server_index(self@, server) {
                    None => r matches Err(McpError::ServerNotFound(s)) && s@ == server,
                    Some(i) => r matches Ok((k, t)) && k == i && t@ == tool,
                },
            },
    {
        let s = chars_of(full_name);
        let u = chars_of("_");
        proof {
            reveal_strlit("_");
            lemma_find_from(s@, u@, 0);
        }
        let i = match find_from_exec(s.as_slice(), u.as_slice(), 0) {
            Some(i) => i,
            None => {
                return Err(McpError::InvalidToolName(full_name.to_string()));
            },
        };
        assert(crate::text::occurs_at(s@, u@, i as int));
        assert(u@.len() == 1);
        assert(i < s.len());
        proof {
            lemma_find_from(s@, u@, i + 1);
        }
        let j = match find_from_exec(s.as_slice(), u.as_slice(), i + 1) {
            Some(j) => j,
            None => {
                return Err(McpError::InvalidToolName(full_name.to_string()));
            },
        };
        let mut server: Vec<char> = Vec::new();
        push_range(&mut server, s.as_slice(), i + 1, j);
        let mut tool: Vec<char> = Vec::new();
        push_range(&mut tool, s.as_slice(), j + 1, s.len());
        assert(tool@ =~= s@.skip(j + 1));
        let server_name = string_of(server.as_slice());
        match first_index(&self.connections, server_name.as_str()) {
            Some(k) => Ok((k, string_of(tool.as_slice()))),
            None => Err(McpError::ServerNotFound(server_name)),
        }
    }

    /// Each server's name, marked as running.
    pub fn connection_status(&self) -> (r: Vec<(String, bool)>)
        ensures
            r@.len() == self@.len(),
            forall|i: int|
                0 <= i < r@.len() ==> (#[trigger] r@[i]).0@ == self@[i].0 && r@[i].1,
    {
        let mut r: Vec<(String, bool)> = Vec::new();
        let mut i: usize = 0;
        while i < self.connections.len()
            invariant
                i <= self.connections.len(),
                r@.len() == i,
                forall|k: int| 0 <= k < i ==> (#[trigger] r@[k]).0@ == self@[k].0 && r@[k].1,
            decreases self.connections.len() - i,
        {
            r.push((self.connections[i].name.clone(), true));
            i = i + 1;
        }
        r
    }

    /// Drops the first server of the given name and tells where it was.
    pub fn remove_server(&mut self, server_name: &str) -> (r: Option<usize>)
        ensures
            match server_index(old(self)@, server_name@) {
                None => r is None && final(self)@ == old(self)@,
                Some(i) => r == Some(i as usize) && final(self)@ == old(self)@.remove(i),
            },
    {
        match first_index(&self.connections, server_name) {
            Some(i) => {
                proof {
                    lemma_server_index(self@, server_name@);
                }
                let ghost before = self.connections@;
                self.connections.remove(i);
                assert(server_views(self.connections@) =~= server_views(before).remove(
                    i as int,
                ));
                Some(i)
            },
            None => None,
        }
    }

    /// Drops the first server of the given name; whether there was one.
    pub fn disconnect_server(&mut self, server_name: &str) -> (b: bool)
        ensures
            b == (server_index(old(self)@, server_name@) is Some),
            match server_index(old(self)@, server_name@) {
                None => final(self)@ == old(self)@,
                Some(i) => final(self)@ == old(self)@.remove(i),
            },
    {
        self.remove_server(server_name).is_some()
    }
}

} // verus!

verus! {

/// A tool offered under `mcp_<server>_<tool>` is routed back to its server
/// and its own name, as long as the server's name has no underscore.
pub proof fn lemma_offered_name_routes_back(server: Seq<char>, tool: Seq<char>)
    requires
        !server.contains('_'),
    ensures
        split_tool_name(mcp_tool_name(server, tool)) == Some((server, tool)),
{
    reveal_strlit("mcp_");
    reveal_strlit("_");
    let s = mcp_tool_name(server, tool);
    let u = "_"@;
    let n: int = server.len() as int;
    assert(s =~= seq!['m', 'c', 'p', '_'] + server + seq!['_'] + tool);
    assert(s.subrange(3, 4) =~= u);
    assert forall|k: int| 0 <= k < 3 implies !crate::text::occurs_at(s, u, k) by {
        assert(s.subrange(k, k + 1)[0] != u[0]);
    }
    lemma_find_from(s, u, 0);
    let f = find_from(s, u, 0);
    assert(crate::text::occurs_at(s, u, 3));
    if f is Some {
        let j = f->0;
        if j > 3 {
            assert(!crate::text::occurs_at(s, u, 3));
        }
    }
    assert(f == Some(3int));
    assert(s.subrange(4 + n, 5 + n) =~= u);
    assert forall|k: int| 4 <= k < 4 + n implies !crate::text::occurs_at(s, u, k) by {
        assert(s[k] == server[k - 4]);
        if crate::text::occurs_at(s, u, k) {
            assert(s.subrange(k, k + 1)[0] == u[0]);
            assert(server.contains(s[k]));
        }
    }
    lemma_find_from(s, u, 4);
    let g = find_from(s, u, 4);
    assert(crate::text::occurs_at(s, u, 4 + n));
    if g is Some {
        let j = g->0;
        if j > 4 + n {
            assert(!crate::text::occurs_at(s, u, 4 + n));
        }
    }
    assert(g == Some(4 + n));
    assert(s.subrange(4, 4 + n) =~= server);
    assert(s.skip(5 + n) =~= tool);
}

} // verus!

verus! {

/// How the name a tool is offered under is routed, for any server name: the
/// server is read up to the first underscore after `mcp_`. So a server whose
/// name has no underscore gets its tool back under the tool's own name; a
/// server named `a_b` is looked up as `a`, with `b_` put before the tool.
pub proof fn lemma_offered_name_routing(server: Seq<char>, tool: Seq<char>)
    ensures
        split_tool_name(mcp_tool_name(server, tool)) == match find_from(server, "_"@, 0) {
            None => Some((server, tool)),
            Some(j) => Some((server.take(j), server.skip(j + 1) + "_"@ + tool)),
        },
{
    reveal_strlit("mcp_");
    reveal_strlit("_");
    let s = mcp_tool_name(server, tool);
    let u = "_"@;
    let n: int = server.len() as int;
    assert(s =~= seq!['m', 'c', 'p', '_'] + server + seq!['_'] + tool);
    assert(s.subrange(3, 4) =~= u);
    assert forall|k: int| 0 <= k < 3 implies !crate::text::occurs_at(s, u, k) by {
        assert(s.subrange(k, k + 1)[0] != u[0]);
    }
    lemma_find_from(s, u, 0);
    let f = find_from(s, u, 0);
    assert(crate::text::occurs_at(s, u, 3));
    if f is Some {
        let j = f->0;
        if j > 3 {
            assert(!crate::text::occurs_at(s, u, 3));
        }
    }
    assert(f == Some(3int));
    lemma_find_from(server, u, 0);
    lemma_find_from(s, u, 4);
    let g = find_from(s, u, 4);
    let e: int = match find_from(server, u, 0) {
        None => n,
        Some(j) => j,
    };
    assert(0 <= e <= n);
    assert(s.subrange(4 + e, 5 + e)[0] == '_') by {
        if e < n {
            assert(crate::text::occurs_at(server, u, e));
            assert(server.subrange(e, e + 1)[0] == server[e]);
            assert(s[4 + e] == server[e]);
        }
    }
    assert(s.subrange(4 + e, 5 + e) =~= u);
    assert(crate::text::occurs_at(s, u, 4 + e));
    assert forall|k: int| 4 <= k < 4 + e implies !crate::text::occurs_at(s, u, k) by {
        assert(s[k] == server[k - 4]);
        if crate::text::occurs_at(s, u, k) {
            assert(s.subrange(k, k + 1)[0] == u[0]);
            assert(server.subrange(k - 4, k - 3) =~= u);
            assert(crate::text::occurs_at(server, u, k - 4));
        }
    }
    if g is Some {
        let j = g->0;
        if j > 4 + e {
            assert(!crate::text::occurs_at(s, u, 4 + e));
        }
    }
    assert(g == Some(4 + e));
    assert(s.subrange(4, 4 + e) =~= server.take(e));
    match find_from(server, u, 0) {
        None => {
            assert(server.take(e) =~= server);
            assert(s.skip(5 + e) =~= tool);
        },
        Some(j) => {
            assert(s.skip(5 + e) =~= server.skip(j + 1) + u + tool);
        },
    }
}

} // verus!

verus! {

/// One part of what an MCP tool returned.
pub enum McpContent {
    Text(String),
    Image { mime_type: String },
    Audio { mime_type: String },
    /// An embedded resource, by the debug form of its contents.
    Resource(String),
    /// A link to a resource, by its debug form.
    ResourceLink(String),
}

/// How a part of a tool's result is shown: text as it is, anything else as a
/// bracketed note.
pub open spec fn content_text(c: McpContent) -> Seq<char> {
    match c {
        McpContent::Text(t) => t@,
        McpContent::Image { mime_type } => "[Image: "@ + mime_type@ + "]"@,
        McpContent::Audio { mime_type } => "[Audio: "@ + mime_type@ + "]"@,
        McpContent::Resource(d) => "[Resource: "@ + d@ + "]"@,
        McpContent::ResourceLink(d) => "[Resource Link: "@ + d@ + "]"@,
    }
}

/// How a part of a tool's result is shown.
pub fn content_part(c: &McpContent) -> (s: String)
    ensures
        s@ == content_text(*c),
{
    let mut v: Vec<char> = Vec::new();
    match c {
        McpContent::Text(t) => {
            push_str(&mut v, t.as_str());
        },
        McpContent::Image { mime_type } => {
            push_str(&mut v, "[Image: ");
            push_str(&mut v, mime_type.as_str());
            push_str(&mut v, "]");
        },
        McpContent::Audio { mime_type } => {
            push_str(&mut v, "[Audio: ");
            push_str(&mut v, mime_type.as_str());
            push_str(&mut v, "]");
        },
        McpContent::Resource(d) => {
            push_str(&mut v, "[Resource: ");
            push_str(&mut v, d.as_str());
            push_str(&mut v, "]");
        },
        McpContent::ResourceLink(d) => {
            push_str(&mut v, "[Resource Link: ");
            push_str(&mut v, d.as_str());
            push_str(&mut v, "]");
        },
    }
    assert(v@ =~= content_text(*c));
    string_of(v.as_slice())
}

/// The text of a tool's result: its parts shown one per line, or `No result`
/// when that is empty.
pub fn tool_result_text(parts: &Vec<McpContent>) -> (s: String)
    ensures
        s@ == tool_output_text(parts@.map_values(|c: McpContent| content_text(c))),
{
    let mut shown: Vec<String> = Vec::new();
    let mut i: usize = 0;
    while i < parts.len()
        invariant
            i <= parts.len(),
            shown.len() == i,
            crate::order::str_views(shown@) == parts@.take(i as int).map_values(
                |c: McpContent| content_text(c),
            ),
        decreases parts.len() - i,
    {
        let ghost before = shown@;
        let part = content_part(&parts[i]);
        shown.push(part);
        assert(parts@.take(i + 1) =~= parts@.take(i as int).push(parts@[i as int]));
        assert(crate::order::str_views(shown@) =~= crate::order::str_views(before).push(
            content_text(parts@[i as int]),
        ));
        assert(crate::order::str_views(shown@) =~= parts@.take(i + 1).map_values(
            |c: McpContent| content_text(c),
        ));
        i = i + 1;
    }
    assert(parts@.take(parts.len() as int) =~= parts@);
    tool_output(&shown)
}

} // verus!

verus! {

#[verifier::external_type_specification]
#[verifier::external_body]
pub struct ExJsonValue(serde_json::Value);

#[verifier::external_type_specification]
#[verifier::external_body]
#[verifier::reject_recursive_types(K)]
#[verifier::reject_recursive_types(V)]
pub struct ExJsonMap<K, V>(serde_json::Map<K, V>);

/// What `serde_json` reads from `text` as the arguments of a call: the
/// object it holds, or `None` when it holds JSON that is not an object.
pub uninterp spec fn json_object_of(text: Seq<char>) -> Option<serde_json::Map<String, serde_json::Value>>;

/// `serde_json::from_str::<Value>(text)`, then `value.as_object()`, cloned:
/// the object the text holds (`None` when it holds JSON that is not an
/// object), or the parser's message. The same text gives the same object;
/// for any key the text then reads without error, and a text that is not an
/// object has no string field.
#[verifier::external_body]
fn json_object(text: &str) -> (r: Result<Option<serde_json::Map<String, serde_json::Value>>, String>)
    ensures
        match r {
            Err(m) => forall|k: Seq<char>|
                #[trigger] json_string_field(text@, k) == Err::<Option<Seq<char>>, Seq<char>>(m@),
            Ok(None) => json_object_of(text@) is None && forall|k: Seq<char>|
                #[trigger] json_string_field(text@, k) == Ok::<Option<Seq<char>>, Seq<char>>(None),
            Ok(Some(o)) => json_object_of(text@) == Some(o) && forall|k: Seq<char>|
                #[trigger] json_string_field(text@, k) is Ok,
        },
{
    match serde_json::from_str::<serde_json::Value>(text) {
        Ok(v) => Ok(v.as_object().cloned()),
        Err(e) => Err(e.to_string()),
    }
}

/// Whether `text` parses as JSON: no key reads as a parse error.
pub open spec fn parses_as_json(text: Seq<char>) -> bool {
    forall|k: Seq<char>| #[trigger] json_string_field(text, k) is Ok
}

/// A call of a server's tool, ready to send: the server's place among the
/// connections, the tool's name there, and the arguments object (none when
/// the arguments are JSON but not an object).
pub struct McpCall {
    pub index: usize,
    pub tool: String,
    pub arguments: Option<serde_json::Map<String, serde_json::Value>>,
}

impl McpManager {
    /// Prepares the call of the tool `full_name` with the JSON text
    /// `arguments`: the route as `route_tool` finds it, then the arguments
    /// parsed, and the object they hold handed on as it is. A route error
    /// comes first; then arguments that are not JSON are refused with the
    /// parser's message.
    pub fn prepare_call(&self, full_name: &str, arguments: &str) -> (r: Result<McpCall, McpError>)
        ensures
            match split_tool_name(full_name@) {
                None => r matches Err(McpError::InvalidToolName(n)) && n@ == full_name@,
                Some((server, tool)) => match server_index(self@, server) {
                    None => r matches Err(McpError::ServerNotFound(s)) && s@ == server,
                    Some(i) => {
                        &&& r is Ok <==> parses_as_json(arguments@)
                        &&& r matches Ok(c) ==> c.index == i && c.tool@ == tool && c.arguments
                            == json_object_of(arguments@) && (c.arguments is None
                            ==> forall|k: Seq<char>|
                            #[trigger] json_string_field(arguments@, k) == Ok::<
                                Option<Seq<char>>,
                                Seq<char>,
                            >(None))
                        &&& r matches Err(e) ==> e matches McpError::InvalidArguments(m) && forall|
                            k: Seq<char>,
                        |
                            #[trigger] json_string_field(arguments@, k) == Err::<
                                Option<Seq<char>>,
                                Seq<char>,
                            >(m@)
                    },
                },
            },
    {
        let (index, tool) = match self.route_tool(full_name) {
            Ok(route) => route,
            Err(e) => {
                return Err(e);
            },
        };
        match json_object(arguments) {
            Ok(object) => Ok(McpCall { index, tool, arguments: object }),
            Err(m) => {
                assert(json_string_field(arguments@, Seq::<char>::empty()) is Err);
                Err(McpError::InvalidArguments(m))
            },
        }
    }
}

} // verus!

verus! {

/// The plan of an enabled entry, as `plan_for` gives it.
pub open spec fn enabled_plan(name: Seq<char>, cfg: McpServerConfig, p: Result<ConnectionPlan, McpError>) -> bool {
    plan_for(
        name,
        cfg,
        match p {
            Ok(c) => Ok(Some(c)),
            Err(e) => Err(e),
        },
    )
}

/// The next server to connect to, at or after place `from` of the listed
/// servers: the first enabled entry there, with its plan or the error that
/// stops loading; `None` when no enabled entry is left. Disabled entries are
/// passed over.
pub fn next_connection(servers: &Vec<(String, McpServerConfig)>, from: usize) -> (r: Option<
    (usize, Result<ConnectionPlan, McpError>),
>)
    ensures
        match r {
            None => forall|j: int| from <= j < servers@.len() ==> !(#[trigger] servers@[j]).1.enabled,
            Some((i, p)) => {
                &&& from <= i < servers@.len()
                &&& servers@[i as int].1.enabled
                &&& forall|j: int| from <= j < i ==> !(#[trigger] servers@[j]).1.enabled
                &&& enabled_plan(servers@[i as int].0@, servers@[i as int].1, p)
            },
        },
{
    let mut i: usize = from;
    while i < servers.len()
        invariant
            from <= i,
            forall|j: int| from <= j < i && j < servers@.len() ==> !(#[trigger] servers@[j]).1.enabled,
        decreases servers.len() - i,
    {
        let name = &servers[i].0;
        let cfg = &servers[i].1;
        if cfg.enabled {
            let p = match plan_connection(name.as_str(), cfg) {
                Ok(Some(c)) => Ok(c),
                Ok(None) => {
                    assert(false);
                    return None;
                },
                Err(e) => Err(e),
            };
            return Some((i, p));
        }
        i = i + 1;
    }
    None
}

} // verus!
