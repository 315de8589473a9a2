use vstd::prelude::*;

use crate::chat::opt_view;
use crate::text::{push_str, str_eq, string_of};
use crate::tools::ToolExecutor;

verus! {

broadcast use vstd::string::group_string_axioms;

/// How to reach one MCP server: a local command (`type` absent or anything
/// but `"remote"`) or a remote URL.
pub struct McpServerConfig {
    pub server_type: Option<String>,
    pub command: Option<String>,
    pub args: Option<Vec<String>>,
    pub env: Option<Vec<(String, String)>>,
    pub url: Option<String>,
    pub enabled: bool,
}

/// What an MCP server entry holds.
pub struct McpServerConfigView {
    pub server_type: Option<Seq<char>>,
    pub command: Option<Seq<char>>,
    pub args: Option<Seq<Seq<char>>>,
    pub env: Option<Seq<(Seq<char>, Seq<char>)>>,
    pub url: Option<Seq<char>>,
    pub enabled: bool,
}

impl View for McpServerConfig {
    type V = McpServerConfigView;

    open spec fn view(&self) -> McpServerConfigView {
        McpServerConfigView {
            server_type: opt_view(self.server_type),
            command: opt_view(self.command),
            args: match self.args {
                Some(a) => Some(crate::order::str_views(a@)),
                None => None,
            },
            env: match self.env {
                Some(e) => Some(crate::order::pair_views(e@)),
                None => None,
            },
            url: opt_view(self.url),
            enabled: self.enabled,
        }
    }
}

/// The MCP servers, by name, in their order.
pub open spec fn servers_view(s: Seq<(String, McpServerConfig)>) -> Seq<
    (Seq<char>, McpServerConfigView),
> {
    s.map_values(|e: (String, McpServerConfig)| (e.0@, e.1@))
}

fn dup_opt(o: &Option<String>) -> (r: Option<String>)
    ensures
        r == *o,
{
    match o {
        Some(s) => Some(s.clone()),
        None => None,
    }
}

pub(crate) fn dup_strings(v: &Vec<String>) -> (r: Vec<String>)
    ensures
        crate::order::str_views(r@) == crate::order::str_views(v@),
{
    let mut r: Vec<String> = Vec::new();
    let mut i: usize = 0;
    while i < v.len()
        invariant
            i <= v.len(),
            r.len() == i,
            crate::order::str_views(r@) == crate::order::str_views(v@.take(i as int)),
        decreases v.len() - i,
    {
        let ghost prev = r@;
        r.push(v[i].clone());
        assert(r@ =~= prev.push(r@[i as int]));
        assert(v@.take(i + 1) =~= v@.take(i as int).push(v@[i as int]));
        assert(crate::order::str_views(r@) =~= crate::order::str_views(prev).push(crate::order::str_views(v@.take(i + 1)).last()));
        assert(crate::order::str_views(r@) =~= crate::order::str_views(v@.take(i + 1)));
        i = i + 1;
    }
    assert(v@.take(v.len() as int) =~= v@);
    r
}

pub(crate) fn dup_pairs(v: &Vec<(String, String)>) -> (r: Vec<(String, String)>)
    ensures
        crate::order::pair_views(r@) == crate::order::pair_views(v@),
{
    let mut r: Vec<(String, String)> = Vec::new();
    let mut i: usize = 0;
    while i < v.len()
        invariant
            i <= v.len(),
            r.len() == i,
            crate::order::pair_views(r@) == crate::order::pair_views(v@.take(i as int)),
        decreases v.len() - i,
    {
        let ghost prev = r@;
        r.push((v[i].0.clone(), v[i].1.clone()));
        assert(r@ =~= prev.push(r@[i as int]));
        assert(v@.take(i + 1) =~= v@.take(i as int).push(v@[i as int]));
        assert(crate::order::pair_views(r@) =~= crate::order::pair_views(prev).push(crate::order::pair_views(v@.take(i + 1)).last()));
        assert(crate::order::pair_views(r@) =~= crate::order::pair_views(v@.take(i + 1)));
        i = i + 1;
    }
    assert(v@.take(v.len() as int) =~= v@);
    r
}

impl McpServerConfig {
    /// A copy of this entry.
    pub fn duplicate(&self) -> (c: Self)
        ensures
            c@ == self@,
    {
        McpServerConfig {
            server_type: dup_opt(&self.server_type),
            command: dup_opt(&self.command),
            args: match &self.args {
                Some(a) => Some(dup_strings(a)),
                None => None,
            },
            env: match &self.env {
                Some(e) => Some(dup_pairs(e)),
                None => None,
            },
            url: dup_opt(&self.url),
            enabled: self.enabled,
        }
    }
}

/// A copy of a list of named servers.
pub fn dup_servers(v: &Vec<(String, McpServerConfig)>) -> (r: Vec<(String, McpServerConfig)>)
    ensures
        servers_view(r@) == servers_view(v@),
{
    let mut r: Vec<(String, McpServerConfig)> = Vec::new();
    let mut i: usize = 0;
    while i < v.len()
        invariant
            i <= v.len(),
            r.len() == i,
            servers_view(r@) == servers_view(v@.take(i as int)),
        decreases v.len() - i,
    {
        let ghost prev = r@;
        r.push((v[i].0.clone(), v[i].1.duplicate()));
        assert(r@ =~= prev.push(r@[i as int]));
        assert(v@.take(i + 1) =~= v@.take(i as int).push(v@[i as int]));
        assert(servers_view(r@) =~= servers_view(prev).push(servers_view(v@.take(i + 1)).last()));
        assert(servers_view(r@) =~= servers_view(v@.take(i + 1)));
        i = i + 1;
    }
    assert(v@.take(v.len() as int) =~= v@);
    r
}

/// Whether an MCP server entry is on when the file says nothing.
pub fn default_enabled() -> (b: bool)
    ensures
        b,
{
    true
}

/// The MCP servers of a configuration.
pub struct McpConfig {
    pub mcp_servers: Vec<(String, McpServerConfig)>,
}

/// A configuration file as written: every setting may be absent; named
/// presets hold settings that override the rest. The temperature is kept as
/// the bit pattern of an `f32`.
pub struct ConfigFile {
    pub mode: Option<String>,
    pub endpoint: Option<String>,
    pub model: Option<String>,
    pub api_key: Option<String>,
    pub system: Option<String>,
    pub temp_bits: Option<u32>,
    pub max_tokens: Option<u32>,
    pub mcp_servers: Vec<(String, McpServerConfig)>,
    pub workspace: Option<String>,
    pub mcp: Option<bool>,
    pub tools: Option<bool>,
    pub presets: Vec<(String, ConfigFile)>,
}

/// The settings a client runs with. The temperature is kept as the bit
/// pattern of an `f32`.
pub struct Config {
    pub endpoint: String,
    pub model: String,
    pub api_key: Option<String>,
    pub system: Option<String>,
    pub temp_bits: u32,
    pub max_tokens: u32,
    pub mcp_servers: Vec<(String, McpServerConfig)>,
    pub workspace: Option<String>,
    pub mcp: bool,
    pub tools: bool,
}

/// The bit pattern of the `f32` 0.7, the temperature when none is set.
pub const DEFAULT_TEMP_BITS: u32 = 0x3f33_3333u32;

/// The endpoint when none is set.
pub open spec fn default_endpoint() -> Seq<char> {
    "http://localhost:8080/v1"@
}

/// The model when none is set.
pub open spec fn default_model() -> Seq<char> {
    "default"@
}

/// The bit pattern of the temperature when the file sets none.
pub fn default_temperature_bits() -> (b: u32)
    ensures
        b == DEFAULT_TEMP_BITS,
{
    DEFAULT_TEMP_BITS
}

/// The token limit when the file sets none.
pub fn default_max_tokens() -> (n: u32)
    ensures
        n == 2048,
{
    2048
}

/// Whether MCP and the file tools are on when the file says nothing.
pub fn default_true() -> (b: bool)
    ensures
        b,
{
    true
}

/// The first preset of the given name.
pub open spec fn preset_named(presets: Seq<(String, ConfigFile)>, name: Seq<char>) -> Option<
    ConfigFile,
>
    decreases presets.len(),
{
    if presets.len() == 0 {
        None
    } else if presets[0].0@ == name {
        Some(presets[0].1)
    } else {
        preset_named(presets.drop_first(), name)
    }
}

/// The preset a merge uses: the named one, if a name is given and found.
pub open spec fn chosen_preset(file: ConfigFile, preset: Option<Seq<char>>) -> Option<ConfigFile> {
    match preset {
        Some(name) => preset_named(file.presets@, name),
        None => None,
    }
}

/// The preset's setting when it has one, else the file's.
pub open spec fn pick<T>(p: Option<ConfigFile>, of: spec_fn(ConfigFile) -> Option<T>, file: ConfigFile) -> Option<T> {
    match p {
        Some(pc) => match of(pc) {
            Some(v) => Some(v),
            None => of(file),
        },
        None => of(file),
    }
}

/// What merging `file` with the preset named `preset` gives: each setting of
/// the preset overrides the file's, a preset's non-empty server list replaces
/// the file's, and settings left unset take their defaults.
pub open spec fn merged(c: Config, file: ConfigFile, preset: Option<Seq<char>>) -> bool {
    let p = chosen_preset(file, preset);
    &&& c.endpoint@ == match pick(p, |f: ConfigFile| f.endpoint, file) {
        Some(s) => s@,
        None => default_endpoint(),
    }
    &&& c.model@ == match pick(p, |f: ConfigFile| f.model, file) {
        Some(s) => s@,
        None => default_model(),
    }
    &&& opt_view(c.api_key) == opt_view(pick(p, |f: ConfigFile| f.api_key, file))
    &&& opt_view(c.system) == opt_view(pick(p, |f: ConfigFile| f.system, file))
    &&& c.temp_bits == match pick(p, |f: ConfigFile| f.temp_bits, file) {
        Some(t) => t,
        None => DEFAULT_TEMP_BITS,
    }
    &&& c.max_tokens == match pick(p, |f: ConfigFile| f.max_tokens, file) {
        Some(t) => t,
        None => 2048,
    }
    &&& servers_view(c.mcp_servers@) == match p {
        Some(pc) => if pc.mcp_servers@.len() > 0 {
            servers_view(pc.mcp_servers@)
        } else {
            servers_view(file.mcp_servers@)
        },
        None => servers_view(file.mcp_servers@),
    }
    &&& opt_view(c.workspace) == opt_view(pick(p, |f: ConfigFile| f.workspace, file))
    &&& c.mcp == match pick(p, |f: ConfigFile| f.mcp, file) {
        Some(b) => b,
        None => true,
    }
    &&& c.tools == match pick(p, |f: ConfigFile| f.tools, file) {
        Some(b) => b,
        None => true,
    }
}

fn find_preset<'a>(presets: &'a Vec<(String, ConfigFile)>, name: &str) -> (r: Option<
    &'a ConfigFile,
>)
    ensures
        match r {
            Some(c) => preset_named(presets@, name@) == Some(*c),
            None => preset_named(presets@, name@) is None,
        },
{
    let mut i: usize = 0;
    assert(presets@.skip(0) =~= presets@);
    while i < presets.len()
        invariant
            i <= presets.len(),
            preset_named(presets@, name@) == preset_named(presets@.skip(i as int), name@),
        decreases presets.len() - i,
    {
        proof {
            assert(presets@.skip(i as int)[0] == presets@[i as int]);
            assert(presets@.skip(i as int).drop_first() =~= presets@.skip(i + 1));
        }
        if str_eq(presets[i].0.as_str(), name) {
            return Some(&presets[i].1);
        }
        i = i + 1;
    }
    None
}

fn or_string(a: &Option<String>, b: &Option<String>) -> (r: Option<String>)
    ensures
        r == (match *a {
            Some(x) => Some(x),
            None => *b,
        }),
{
    match a {
        Some(x) => Some(x.clone()),
        None => dup_opt(b),
    }
}

fn or_copy<T: Copy>(a: Option<T>, b: Option<T>) -> (r: Option<T>)
    ensures
        r == (match a {
            Some(x) => Some(x),
            None => b,
        }),
{
    match a {
        Some(x) => Some(x),
        None => b,
    }
}

impl Default for Config {
    /// Every setting empty, zero or off.
    fn default() -> (c: Self)
        ensures
            c.endpoint@ == Seq::<char>::empty(),
            c.model@ == Seq::<char>::empty(),
            c.api_key is None,
            c.system is None,
            c.temp_bits == 0,
            c.max_tokens == 0,
            c.mcp_servers@.len() == 0,
            c.workspace is None,
            !c.mcp,
            !c.tools,
    {
        Config {
            endpoint: String::new(),
            model: String::new(),
            api_key: None,
            system: None,
            temp_bits: 0,
            max_tokens: 0,
            mcp_servers: Vec::new(),
            workspace: None,
            mcp: false,
            tools: false,
        }
    }
}

impl Config {
    /// The settings of `file` with the preset named `preset` applied.
    pub fn merge_config(file: &ConfigFile, preset: Option<&str>) -> (c: Config)
        ensures
            merged(
                c,
                *file,
                match preset {
                    Some(p) => Some(p@),
                    None => None,
                },
            ),
    {
        let chosen: Option<&ConfigFile> = match preset {
            Some(name) => find_preset(&file.presets, name),
            None => None,
        };
        let (endpoint, model, api_key, system, temp_bits, max_tokens, workspace, mcp, tools) =
            match chosen {
            Some(pc) => (
                or_string(&pc.endpoint, &file.endpoint),
                or_string(&pc.model, &file.model),
                or_string(&pc.api_key, &file.api_key),
                or_string(&pc.system, &file.system),
                or_copy(pc.temp_bits, file.temp_bits),
                or_copy(pc.max_tokens, file.max_tokens),
                or_string(&pc.workspace, &file.workspace),
                or_copy(pc.mcp, file.mcp),
                or_copy(pc.tools, file.tools),
            ),
            None => (
                dup_opt(&file.endpoint),
                dup_opt(&file.model),
                dup_opt(&file.api_key),
                dup_opt(&file.system),
                file.temp_bits,
                file.max_tokens,
                dup_opt(&file.workspace),
                file.mcp,
                file.tools,
            ),
        };
        let mcp_servers = match chosen {
            Some(pc) => if pc.mcp_servers.len() > 0 {
                dup_servers(&pc.mcp_servers)
            } else {
                dup_servers(&file.mcp_servers)
            },
            None => dup_servers(&file.mcp_servers),
        };
        Config {
            endpoint: match endpoint {
                Some(s) => s,
                None => "http://localhost:8080/v1".to_string(),
            },
            model: match model {
                Some(s) => s,
                None => "default".to_string(),
            },
            api_key,
            system,
            temp_bits: match temp_bits {
                Some(t) => t,
                None => DEFAULT_TEMP_BITS,
            },
            max_tokens: match max_tokens {
                Some(t) => t,
                None => 2048,
            },
            mcp_servers,
            workspace,
            mcp: match mcp {
                Some(b) => b,
                None => true,
            },
            tools: match tools {
                Some(b) => b,
                None => true,
            },
        }
    }

    /// The executor of the file tools: there is one when the tools are on and
    /// a workspace is set, confined to that workspace.
    pub fn tool_executor(&self) -> (e: Option<ToolExecutor>)
        ensures
            e is Some <==> (self.tools && self.workspace is Some),
            e matches Some(x) ==> x.workspace()@ == self.workspace->0@,
    {
        if self.tools {
            match &self.workspace {
                Some(w) => Some(ToolExecutor::new(w.clone())),
                None => None,
            }
        } else {
            None
        }
    }

    /// The value of the `Authorization` header: `Bearer ` and the API key,
    /// when there is a key.
    pub fn authorization_value(&self) -> (h: Option<String>)
        ensures
            match self.api_key {
                Some(k) => h matches Some(v) && v@ == "Bearer "@ + k@,
                None => h is None,
            },
    {
        match &self.api_key {
            Some(k) => {
                let mut v: Vec<char> = Vec::new();
                push_str(&mut v, "Bearer ");
                push_str(&mut v, k.as_str());
                Some(string_of(v.as_slice()))
            },
            None => None,
        }
    }

    /// Whether the client connects to MCP servers: MCP is on and some server
    /// is listed.
    pub fn wants_mcp(&self) -> (b: bool)
        ensures
            b == (self.mcp && self.mcp_servers@.len() > 0),
    {
        self.mcp && self.mcp_servers.len() > 0
    }
}

} // verus!

verus! {

/// A preset name that the file does not define is ignored: the merge is the
/// one without a preset.
pub proof fn lemma_unknown_preset_ignored(c: Config, file: ConfigFile, name: Seq<char>)
    requires
        preset_named(file.presets@, name) is None,
    ensures
        merged(c, file, Some(name)) <==> merged(c, file, None),
{
}

/// A setting that the chosen preset makes is the merged setting, for every
/// setting; where the preset leaves one unset, the file's setting is used;
/// a preset's non-empty server list is the merged list.
pub proof fn lemma_preset_settings_win(c: Config, file: ConfigFile, name: Seq<char>, pc: ConfigFile)
    requires
        preset_named(file.presets@, name) == Some(pc),
        merged(c, file, Some(name)),
    ensures
        pc.endpoint matches Some(e) ==> c.endpoint@ == e@,
        pc.endpoint is None ==> (file.endpoint matches Some(e) ==> c.endpoint@ == e@),
        pc.model matches Some(m) ==> c.model@ == m@,
        pc.model is None ==> (file.model matches Some(m) ==> c.model@ == m@),
        pc.api_key matches Some(k) ==> c.api_key matches Some(x) && x@ == k@,
        pc.api_key is None ==> opt_view(c.api_key) == opt_view(file.api_key),
        pc.system matches Some(k) ==> c.system matches Some(x) && x@ == k@,
        pc.system is None ==> opt_view(c.system) == opt_view(file.system),
        pc.workspace matches Some(k) ==> c.workspace matches Some(x) && x@ == k@,
        pc.workspace is None ==> opt_view(c.workspace) == opt_view(file.workspace),
        pc.temp_bits matches Some(t) ==> c.temp_bits == t,
        pc.temp_bits is None ==> (file.temp_bits matches Some(t) ==> c.temp_bits == t),
        pc.max_tokens matches Some(t) ==> c.max_tokens == t,
        pc.max_tokens is None ==> (file.max_tokens matches Some(t) ==> c.max_tokens == t),
        pc.mcp matches Some(b) ==> c.mcp == b,
        pc.mcp is None ==> (file.mcp matches Some(b) ==> c.mcp == b),
        pc.tools matches Some(b) ==> c.tools == b,
        pc.tools is None ==> (file.tools matches Some(b) ==> c.tools == b),
        pc.mcp_servers@.len() > 0 ==> servers_view(c.mcp_servers@) == servers_view(pc.mcp_servers@),
        pc.mcp_servers@.len() == 0 ==> servers_view(c.mcp_servers@) == servers_view(file.mcp_servers@),
{
}

/// Without a preset each setting is the file's, or its default when the file
/// leaves it unset.
pub proof fn lemma_file_settings_without_preset(c: Config, file: ConfigFile)
    requires
        merged(c, file, None),
    ensures
        c.endpoint@ == match file.endpoint {
            Some(e) => e@,
            None => default_endpoint(),
        },
        c.model@ == match file.model {
            Some(m) => m@,
            None => default_model(),
        },
        opt_view(c.api_key) == opt_view(file.api_key),
        opt_view(c.system) == opt_view(file.system),
        opt_view(c.workspace) == opt_view(file.workspace),
        c.temp_bits == match file.temp_bits {
            Some(t) => t,
            None => DEFAULT_TEMP_BITS,
        },
        c.max_tokens == match file.max_tokens {
            Some(t) => t,
            None => 2048,
        },
        c.mcp == match file.mcp {
            Some(b) => b,
            None => true,
        },
        c.tools == match file.tools {
            Some(b) => b,
            None => true,
        },
        servers_view(c.mcp_servers@) == servers_view(file.mcp_servers@),
{
}

/// A preset that sets nothing and lists no server changes nothing.
pub proof fn lemma_empty_preset_changes_nothing(c: Config, file: ConfigFile, name: Seq<char>)
    requires
        preset_named(file.presets@, name) matches Some(p) && {
            &&& p.endpoint is None
            &&& p.model is None
            &&& p.api_key is None
            &&& p.system is None
            &&& p.temp_bits is None
            &&& p.max_tokens is None
            &&& p.mcp_servers@.len() == 0
            &&& p.workspace is None
            &&& p.mcp is None
            &&& p.tools is None
        },
    ensures
        merged(c, file, Some(name)) <==> merged(c, file, None),
{
}

} // verus!

verus! {

/// What `serde_yaml` makes of `text` when asked for the keys of the mapping
/// under `key`: each key as text when it is a string, in the mapping's
/// order; `None` when the text does not parse or `key` holds no mapping.
pub uninterp spec fn yaml_keys_under(text: Seq<char>, key: Seq<char>) -> Option<
    Seq<Option<Seq<char>>>,
>;

/// The characters of optional keys.
pub open spec fn keys_view(r: Option<Vec<Option<String>>>) -> Option<Seq<Option<Seq<char>>>> {
    match r {
        Some(v) => Some(v@.map_values(|o: Option<String>| opt_view(o))),
        None => None,
    }
}

/// `serde_yaml::from_str::<Value>(text)`, then `value.get(key)`,
/// `as_mapping()`, and each key of that mapping taken with `as_str()`.
#[verifier::external_body]
fn yaml_mapping_keys(text: &str, key: &str) -> (r: Option<Vec<Option<String>>>)
    ensures
        keys_view(r) == yaml_keys_under(text@, key@),
{
    match serde_yaml::from_str::<serde_yaml::Value>(text) {
        Ok(v) => v.get(key).and_then(|p| p.as_mapping()).map(
            |m| m.keys().map(|k| k.as_str().map(|s| s.to_string())).collect(),
        ),
        Err(_) => None,
    }
}

/// The keys that are strings, in order.
pub open spec fn string_keys(ks: Seq<Option<Seq<char>>>) -> Seq<Seq<char>>
    decreases ks.len(),
{
    if ks.len() == 0 {
        Seq::empty()
    } else {
        match ks.last() {
            Some(k) => string_keys(ks.drop_last()).push(k),
            None => string_keys(ks.drop_last()),
        }
    }
}

/// The names of the presets a configuration text defines, in the file's
/// order: the string keys of its `presets` mapping; `None` when the text
/// does not parse or has no such mapping.
pub fn preset_names(content: &str) -> (r: Option<Vec<String>>)
    ensures
        match yaml_keys_under(content@, "presets"@) {
            None => r is None,
            Some(ks) => r matches Some(v) && crate::order::str_views(v@) == string_keys(ks),
        },
{
    let keys = match yaml_mapping_keys(content, "presets") {
        Some(k) => k,
        None => {
            return None;
        },
    };
    let ghost ks = keys_view(Some(keys))->0;
    let mut names: Vec<String> = Vec::new();
    let mut i: usize = 0;
    while i < keys.len()
        invariant
            i <= keys.len(),
            ks == keys@.map_values(|o: Option<String>| opt_view(o)),
            crate::order::str_views(names@) == string_keys(ks.take(i as int)),
        decreases keys.len() - i,
    {
        let ghost before = names@;
        assert(ks.take(i + 1).drop_last() =~= ks.take(i as int));
        match &keys[i] {
            Some(k) => {
                names.push(k.clone());
                assert(crate::order::str_views(names@) =~= crate::order::str_views(before).push(
                    k@,
                ));
            },
            None => {},
        }
        i = i + 1;
    }
    assert(ks.take(keys.len() as int) =~= ks);
    Some(names)
}

} // verus!

verus! {

/// A name picks the first preset listed under it; `None` when no preset has
/// that name.
pub proof fn lemma_preset_named_is_the_first(presets: Seq<(String, ConfigFile)>, name: Seq<char>, i: int)
    requires
        0 <= i < presets.len(),
        presets[i].0@ == name,
        forall|j: int| 0 <= j < i ==> (#[trigger] presets[j]).0@ != name,
    ensures
        preset_named(presets, name) == Some(presets[i].1),
    decreases i,
{
    if i > 0 {
        let rest = presets.drop_first();
        assert forall|j: int| 0 <= j < i - 1 implies (#[trigger] rest[j]).0@ != name by {
            assert(rest[j] == presets[j + 1]);
        }
        assert(presets[0].0@ != name);
        lemma_preset_named_is_the_first(rest, name, i - 1);
    }
}

/// No preset is picked by a name that none has.
pub proof fn lemma_preset_named_none(presets: Seq<(String, ConfigFile)>, name: Seq<char>)
    requires
        forall|j: int| 0 <= j < presets.len() ==> (#[trigger] presets[j]).0@ != name,
    ensures
        preset_named(presets, name) is None,
    decreases presets.len(),
{
    if presets.len() > 0 {
        let rest = presets.drop_first();
        assert forall|j: int| 0 <= j < rest.len() implies (#[trigger] rest[j]).0@ != name by {
            assert(rest[j] == presets[j + 1]);
        }
        assert(presets[0].0@ != name);
        lemma_preset_named_none(rest, name);
    }
}

} // verus!
