//! Where a newly added plugin's files go, and what they hold by default.
use vstd::prelude::*;
use vstd::string::StringExecFns;
use crate::config::{Dependency, EnvimConfig};

verus! {

/// The author and plugin-name parts that the pattern
/// `(?<author>.+)/(?<plugin_name>.+)` captures in a plugin reference, if it
/// matches.
pub uninterp spec fn plugin_parts_of(plugin: Seq<char>) -> Option<(Seq<char>, Seq<char>)>;

/// `author` and `name` are non-empty, hold no newline, and stand in `plugin`
/// one after the other with a `/` between them.
pub open spec fn splits(plugin: Seq<char>, author: Seq<char>, name: Seq<char>) -> bool {
    &&& author.len() > 0
    &&& name.len() > 0
    &&& !author.contains('\n')
    &&& !name.contains('\n')
    &&& exists|i: int|
        0 <= i && i + author.len() + 1 + name.len() <= plugin.len() && #[trigger] plugin.subrange(
            i,
            i + author.len() + 1 + name.len(),
        ) == author + seq!['/'] + name
}

/// Relies on `regex::Regex::new` and `regex::Regex::captures` with the
/// pattern `(?<author>.+)/(?<plugin_name>.+)`: the two named groups of the
/// leftmost match. The result depends on the text alone. The groups are
/// adjacent around the literal `/` in the match, and each, being `.+`, holds
/// at least one character and no newline.
#[verifier::external_body]
fn capture_plugin_parts(plugin: &str) -> (r: Option<(String, String)>)
    ensures
        match r {
            Some(parts) => {
                &&& plugin_parts_of(plugin@) == Some((parts.0@, parts.1@))
                &&& splits(plugin@, parts.0@, parts.1@)
            },
            None => plugin_parts_of(plugin@) is None,
        },
{
    let re = regex::Regex::new(r"(?<author>.+)/(?<plugin_name>.+)").unwrap();
    re.captures(plugin).map(|c| (c["author"].to_string(), c["plugin_name"].to_string()))
}

/// The texts of a sequence of strings.
pub open spec fn texts(v: Seq<String>) -> Seq<Seq<char>> {
    v.map_values(|s: String| s@)
}

/// The per-plugin configuration written when no default spec is known: a
/// table that names the plugin, with empty options, loaded eagerly.
pub open spec fn default_config_text(plugin: Seq<char>) -> Seq<char> {
    "return {\n              \""@ + plugin
        + "\",\n              opts = {},\n              lazy = false\n            }\n        "@
}

/// The configuration file of the plugin named `name`, relative to the
/// project: `.nvim/plugins/<name>.lua`.
pub open spec fn config_path_of(name: Seq<char>) -> Seq<Seq<char>> {
    seq![".nvim"@, "plugins"@, name + ".lua"@]
}

/// Where a default spec for a plugin is looked up under the data directory.
pub open spec fn spec_path_of(data_dir: Seq<Seq<char>>, author: Seq<char>, name: Seq<char>) -> Seq<Seq<char>> {
    data_dir + seq!["index"@, "plugins"@, author, name, "default"@, "lazy"@, "spec.lua"@]
}

/// A plugin that was added: its reference and its configuration file.
#[derive(Debug)]
pub struct PluginAdditionInfo {
    pub plugin_name: String,
    pub config_path: Vec<String>,
}

/// What adding a plugin reads and writes.
#[derive(Debug)]
pub struct PluginPlan {
    pub info: PluginAdditionInfo,
    /// The default spec to copy, if it exists.
    pub spec_path: Vec<String>,
    /// The configuration to write where no default spec exists.
    pub default_config: String,
}

/// The directory, relative to the project, that holds plugin configurations.
pub fn plugins_dir() -> (r: Vec<String>)
    ensures
        r@.len() == 2,
        texts(r@) == seq![".nvim"@, "plugins"@],
{
    let mut r: Vec<String> = Vec::new();
    r.push(String::from_str(".nvim"));
    r.push(String::from_str("plugins"));
    assert(texts(r@) =~= seq![".nvim"@, "plugins"@]);
    r
}

/// The default configuration of a plugin.
pub fn default_plugin_config(plugin: &str) -> (r: String)
    ensures
        r@ == default_config_text(plugin@),
{
    let head = String::from_str("return {\n              \"");
    let named = head.concat(plugin);
    named.concat("\",\n              opts = {},\n              lazy = false\n            }\n        ")
}

/// The plan for a plugin whose reference splits into `author` and `name`.
pub fn plan_from_parts(plugin: &str, author: &String, name: &String, data_dir: &Vec<String>) -> (r: PluginPlan)
    ensures
        r.info.plugin_name@ == plugin@,
        texts(r.info.config_path@) == config_path_of(name@),
        texts(r.spec_path@) == spec_path_of(texts(data_dir@), author@, name@),
        r.default_config@ == default_config_text(plugin@),
{
    let mut config_path = plugins_dir();
    let file = name.clone().concat(".lua");
    let ghost dir = config_path@;
    config_path.push(file);
    assert(texts(config_path@) =~= texts(dir).push(file@));
    assert(texts(config_path@) =~= config_path_of(name@));

    let mut spec_path: Vec<String> = Vec::new();
    let mut i: usize = 0;
    while i < data_dir.len()
        invariant
            i <= data_dir@.len(),
            spec_path@.len() == i,
            texts(spec_path@) == texts(data_dir@).subrange(0, i as int),
        decreases data_dir@.len() - i,
    {
        let part = data_dir[i].clone();
        let ghost before = spec_path@;
        spec_path.push(part);
        assert(texts(spec_path@) =~= texts(before).push(part@));
        assert(texts(spec_path@) =~= texts(data_dir@).subrange(0, i + 1));
        i = i + 1;
    }
    spec_path.push(String::from_str("index"));
    spec_path.push(String::from_str("plugins"));
    spec_path.push(author.clone());
    spec_path.push(name.clone());
    spec_path.push(String::from_str("default"));
    spec_path.push(String::from_str("lazy"));
    spec_path.push(String::from_str("spec.lua"));
    assert(texts(data_dir@).subrange(0, i as int) =~= texts(data_dir@));
    assert(texts(spec_path@) =~= spec_path_of(texts(data_dir@), author@, name@));

    PluginPlan {
        info: PluginAdditionInfo { plugin_name: String::from_str(plugin), config_path },
        spec_path,
        default_config: default_plugin_config(plugin),
    }
}

/// Plans the addition of a plugin given as `<author>/<plugin-name>`, with
/// default specs looked up under `data_dir`; `None` when the reference does
/// not have that shape.
pub fn add_plugin(plugin: &str, data_dir: &Vec<String>) -> (r: Option<PluginPlan>)
    ensures
        r is None <==> plugin_parts_of(plugin@) is None,
        match r {
            Some(p) => {
                let parts = plugin_parts_of(plugin@)->Some_0;
                &&& splits(plugin@, parts.0, parts.1)
                &&& p.info.plugin_name@ == plugin@
                &&& p.info.plugin_name@.len() > 0
                &&& texts(p.info.config_path@) == config_path_of(parts.1)
                &&& texts(p.spec_path@) == spec_path_of(texts(data_dir@), parts.0, parts.1)
                &&& p.default_config@ == default_config_text(plugin@)
            },
            None => true,
        },
{
    match capture_plugin_parts(plugin) {
        Some(parts) => Some(plan_from_parts(plugin, &parts.0, &parts.1, data_dir)),
        None => None,
    }
}

/// Records an added plugin in the configuration, as a dependency without a
/// version constraint; an entry of the same name is replaced.
pub fn update_config(config: &mut EnvimConfig, info: &PluginAdditionInfo)
    requires
        old(config).wf(),
        info.plugin_name@.len() > 0,
    ensures
        final(config).wf(),
        final(config)@ == (old(config)@.0.insert(info.plugin_name@, None), old(config)@.1),
{
    config.add_dependency(Dependency { name: info.plugin_name.clone(), version: None });
}

} // verus!
