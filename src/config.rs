//! The workspace configuration document: dependency entries, the set they
//! fold into, the plugin-manager alias, and the document that holds them.
use vstd::prelude::*;
use vstd::string::StringExecFns;
use crate::value::{Value, find_key, lookup};

verus! {

/// A name-to-version mapping of dependencies.
pub type DepsModel = Map<Seq<char>, Option<Seq<char>>>;

/// The content of a document: its dependencies and its plugin manager.
pub type DocModel = (DepsModel, PluginManager);

/// Why a document was refused; parsing stops at the first of these.
#[derive(Clone, Copy, Debug, PartialEq, Eq, Structural)]
pub enum ConfigError {
    /// A dependency has no name: a record without `name`, or an empty name
    /// in either form.
    MissingField,
    /// A value has another shape than the one its place asks for.
    TypeMismatch,
    /// `plugin_manager` names no known manager.
    UnsupportedManager,
    /// The `workspace` section, or one of its required keys, is absent.
    MissingSection,
}

/// The plugin manager that a workspace is set up with.
#[derive(Clone, Copy, Debug, PartialEq, Eq, Structural)]
pub enum PluginManager {
    Lazy,
}

/// The manager that an alias names: `"lazy"` and `"lazynvim"`, matched
/// exactly, both name `Lazy`.
pub open spec fn manager_of(s: Seq<char>) -> Result<PluginManager, ConfigError> {
    if s == "lazy"@ || s == "lazynvim"@ {
        Ok(PluginManager::Lazy)
    } else {
        Err(ConfigError::UnsupportedManager)
    }
}

impl PluginManager {
    /// Resolves a manager alias.
    pub fn parse(s: &String) -> (r: Result<PluginManager, ConfigError>)
        ensures
            r == manager_of(s@),
            r is Ok <==> (s@ == "lazy"@ || s@ == "lazynvim"@),
            r is Err ==> r == Err::<PluginManager, ConfigError>(ConfigError::UnsupportedManager),
    {
        let lazy = String::from_str("lazy");
        let lazynvim = String::from_str("lazynvim");
        if *s == lazy || *s == lazynvim {
            Ok(PluginManager::Lazy)
        } else {
            Err(ConfigError::UnsupportedManager)
        }
    }

    /// The canonical alias, whichever alias was parsed.
    pub fn name(&self) -> (r: String)
        ensures
            r@ == "lazy"@,
    {
        match self {
            PluginManager::Lazy => String::from_str("lazy"),
        }
    }

    /// The node that stores this manager: its canonical alias.
    pub fn to_value(&self) -> (r: Value)
        ensures
            r matches Value::Str(t) && t@ == "lazy"@,
    {
        Value::Str(self.name())
    }
}

/// A plugin that the workspace depends on, with an optional version
/// constraint that is kept as opaque text.
#[derive(Debug)]
pub struct Dependency {
    pub name: String,
    pub version: Option<String>,
}

/// The text of an optional string.
pub open spec fn opt_text(o: Option<String>) -> Option<Seq<char>> {
    match o {
        Some(s) => Some(s@),
        None => None,
    }
}

impl View for Dependency {
    type V = (Seq<char>, Option<Seq<char>>);

    open spec fn view(&self) -> (Seq<char>, Option<Seq<char>>) {
        (self.name@, opt_text(self.version))
    }
}

/// What one dependency entry parses to: a bare string is a name without a
/// version; a record needs a string `name`, may have a string `version`, and
/// may hold other keys, which are ignored. A name is never empty: an empty
/// one counts as no name and fails with `MissingField`, in either form.
pub open spec fn dependency_of(v: Value) -> Result<(Seq<char>, Option<Seq<char>>), ConfigError> {
    match v {
        Value::Str(s) => if s@.len() == 0 {
            Err(ConfigError::MissingField)
        } else {
            Ok((s@, None))
        },
        Value::Table(entries) => match find_key(entries@, "name"@) {
            None => Err(ConfigError::MissingField),
            Some(Value::Str(n)) => if n@.len() == 0 {
                Err(ConfigError::MissingField)
            } else {
                match find_key(entries@, "version"@) {
                None => Ok((n@, None)),
                Some(Value::Str(ver)) => Ok((n@, Some(ver@))),
                    Some(_) => Err(ConfigError::TypeMismatch),
                }
            },
            Some(_) => Err(ConfigError::TypeMismatch),
        },
        _ => Err(ConfigError::TypeMismatch),
    }
}

/// `v` is the record form of the entry `d`: a `name` key, then a `version`
/// key exactly when `d` has a version, and nothing else.
pub open spec fn encodes(v: Value, d: (Seq<char>, Option<Seq<char>>)) -> bool {
    match v {
        Value::Table(entries) => {
            &&& entries@.len() == (if d.1 is Some { 2int } else { 1int })
            &&& entries@[0].0@ == "name"@
            &&& entries@[0].1 matches Value::Str(n) && n@ == d.0
            &&& match d.1 {
                Some(ver) => entries@[1].0@ == "version"@ && (entries@[1].1 matches Value::Str(
                    t,
                ) && t@ == ver),
                None => true,
            }
        },
        _ => false,
    }
}

/// The record form of an entry parses back to that entry.
pub proof fn lemma_encodes_parses(v: Value, d: (Seq<char>, Option<Seq<char>>))
    requires
        encodes(v, d),
        d.0.len() > 0,
    ensures
        dependency_of(v) == Ok::<(Seq<char>, Option<Seq<char>>), ConfigError>(d),
{
    reveal_strlit("name");
    reveal_strlit("version");
    assert("name"@ != "version"@) by {
        assert("name"@.len() != "version"@.len());
    }
    if let Value::Table(entries) = v {
        let s = entries@;
        if d.1 is Some {
            assert(s.drop_last().drop_last().len() == 0);
            assert(s.drop_last().last() == s[0]);
            assert(find_key(s, "version"@) == Some(s[1].1));
            assert(find_key(s.drop_last(), "name"@) == Some(s[0].1));
            assert(find_key(s, "name"@) == Some(s[0].1));
        } else {
            assert(s.drop_last().len() == 0);
            assert(find_key(s.drop_last(), "version"@) is None);
            assert(find_key(s, "version"@) is None);
            assert(find_key(s, "name"@) == Some(s[0].1));
        }
    }
}

impl Dependency {
    /// Parses one dependency entry, in bare-string or in record form.
    pub fn from_value(v: &Value) -> (r: Result<Dependency, ConfigError>)
        ensures
            match r {
                Ok(d) => dependency_of(*v) == Ok::<_, ConfigError>(d@),
                Err(e) => dependency_of(*v) == Err::<(Seq<char>, Option<Seq<char>>), _>(e),
            },
    {
        match v {
            Value::Str(s) => if s.as_str().is_empty() {
                Err(ConfigError::MissingField)
            } else {
                Ok(Dependency { name: s.clone(), version: None })
            },
            Value::Table(entries) => {
                let name_key = String::from_str("name");
                match lookup(entries, &name_key) {
                    None => Err(ConfigError::MissingField),
                    Some(Value::Str(n)) => {
                        if n.as_str().is_empty() {
                            return Err(ConfigError::MissingField);
                        }
                        let version_key = String::from_str("version");
                        match lookup(entries, &version_key) {
                            None => Ok(Dependency { name: n.clone(), version: None }),
                            Some(Value::Str(ver)) => Ok(
                                Dependency { name: n.clone(), version: Some(ver.clone()) },
                            ),
                            Some(_) => Err(ConfigError::TypeMismatch),
                        }
                    },
                    Some(_) => Err(ConfigError::TypeMismatch),
                }
            },
            _ => Err(ConfigError::TypeMismatch),
        }
    }

    /// The record form of this entry; a missing version is left out.
    pub fn to_value(&self) -> (r: Value)
        requires
            self.name@.len() > 0,
        ensures
            encodes(r, self@),
            dependency_of(r) == Ok::<_, ConfigError>(self@),
    {
        let mut entries: Vec<(String, Value)> = Vec::new();
        entries.push((String::from_str("name"), Value::Str(self.name.clone())));
        match &self.version {
            Some(ver) => {
                entries.push((String::from_str("version"), Value::Str(ver.clone())));
            },
            None => {},
        }
        let r = Value::Table(entries);
        proof {
            lemma_encodes_parses(r, self@);
        }
        r
    }
}

/// The mapping from name to version that a sequence of entries folds into:
/// each entry is inserted in turn, so a later entry replaces an earlier one
/// of the same name.
pub open spec fn entries_map(s: Seq<(Seq<char>, Option<Seq<char>>)>) -> DepsModel
    decreases s.len(),
{
    if s.len() == 0 {
        Map::empty()
    } else {
        entries_map(s.drop_last()).insert(s.last().0, s.last().1)
    }
}

/// What a sequence of dependency entries parses to: the first entry that
/// fails decides the error; otherwise the entries fold into a mapping.
pub open spec fn deps_of(vals: Seq<Value>) -> Result<DepsModel, ConfigError>
    decreases vals.len(),
{
    if vals.len() == 0 {
        Ok(Map::empty())
    } else {
        match deps_of(vals.drop_last()) {
            Err(e) => Err(e),
            Ok(m) => match dependency_of(vals.last()) {
                Err(e) => Err(e),
                Ok(d) => Ok(m.insert(d.0, d.1)),
            },
        }
    }
}

/// No two entries share a name.
pub open spec fn names_unique(s: Seq<(Seq<char>, Option<Seq<char>>)>) -> bool {
    forall|i: int, j: int| 0 <= i < j < s.len() ==> s[i].0 != s[j].0
}

/// No entry has an empty name.
pub open spec fn names_nonempty(s: Seq<(Seq<char>, Option<Seq<char>>)>) -> bool {
    forall|i: int| 0 <= i < s.len() ==> (#[trigger] s[i]).0.len() > 0
}

/// Replacing an entry by one of the same name is an insert into the mapping.
proof fn lemma_entries_map_update(s: Seq<(Seq<char>, Option<Seq<char>>)>, k: int, x: (Seq<char>, Option<Seq<char>>))
    requires
        names_unique(s),
        0 <= k < s.len(),
        s[k].0 == x.0,
    ensures
        entries_map(s.update(k, x)) == entries_map(s).insert(x.0, x.1),
    decreases s.len(),
{
    let t = s.update(k, x);
    if k == s.len() - 1 {
        assert(t.drop_last() =~= s.drop_last());
        assert(entries_map(t) =~= entries_map(s).insert(x.0, x.1));
    } else {
        assert(t.drop_last() =~= s.drop_last().update(k, x));
        lemma_entries_map_update(s.drop_last(), k, x);
        assert(s.last().0 != x.0);
        assert(entries_map(t) =~= entries_map(s).insert(x.0, x.1));
    }
}

/// Once a prefix of the entries fails, the whole sequence fails the same way.
proof fn lemma_deps_err_extends(vals: Seq<Value>, i: int, e: ConfigError)
    requires
        0 <= i <= vals.len(),
        deps_of(vals.subrange(0, i)) == Err::<DepsModel, ConfigError>(e),
    ensures
        deps_of(vals) == Err::<DepsModel, ConfigError>(e),
    decreases vals.len(),
{
    if vals.len() == i {
        assert(vals.subrange(0, i) =~= vals);
    } else {
        assert(vals.drop_last().subrange(0, i) =~= vals.subrange(0, i));
        lemma_deps_err_extends(vals.drop_last(), i, e);
    }
}

/// The dependencies of a workspace, keyed by name. A repeated name is not
/// an error: the later entry replaces the earlier one where it stands, so
/// entries keep the order in which their names first appeared.
#[derive(Debug)]
pub struct DependencyMap {
    deps: Vec<Dependency>,
}

impl View for DependencyMap {
    type V = DepsModel;

    closed spec fn view(&self) -> DepsModel {
        entries_map(self.entries())
    }
}

impl DependencyMap {
    /// The entries in the order they are kept.
    pub closed spec fn entries(&self) -> Seq<(Seq<char>, Option<Seq<char>>)> {
        self.deps@.map_values(|d: Dependency| d@)
    }

    /// Names are unique and non-empty.
    pub closed spec fn wf(&self) -> bool {
        names_unique(self.entries()) && names_nonempty(self.entries())
    }

    /// An empty set of dependencies.
    pub fn new() -> (r: DependencyMap)
        ensures
            r.wf(),
            r@ == Map::<Seq<char>, Option<Seq<char>>>::empty(),
    {
        let r = DependencyMap { deps: Vec::new() };
        assert(r.entries().len() == 0);
        r
    }

    /// The number of dependencies.
    pub fn len(&self) -> (r: usize)
        requires
            self.wf(),
        ensures
            r == self@.len(),
    {
        proof {
            lemma_entries_map_len(self.entries());
        }
        self.deps.len()
    }

    /// The dependency of the given name, if there is one.
    pub fn get(&self, name: &String) -> (r: Option<&Dependency>)
        requires
            self.wf(),
        ensures
            r is Some <==> self@.contains_key(name@),
            match r {
                Some(d) => d@.0 == name@ && d@.1 == self@[name@],
                None => true,
            },
    {
        proof {
            lemma_entries_map_len(self.entries());
        }
        let mut i: usize = 0;
        while i < self.deps.len()
            invariant
                i <= self.deps@.len(),
                self.wf(),
                forall|j: int| 0 <= j < i ==> self.entries()[j].0 != name@,
            decreases self.deps@.len() - i,
        {
            if self.deps[i].name == *name {
                proof {
                    lemma_entries_map_at(self.entries(), i as int);
                }
                return Some(&self.deps[i]);
            }
            i = i + 1;
        }
        None
    }

    /// Adds a dependency, replacing the one of the same name if there is one.
    pub fn insert(&mut self, dep: Dependency)
        requires
            old(self).wf(),
            dep.name@.len() > 0,
        ensures
            final(self).wf(),
            final(self)@ == old(self)@.insert(dep@.0, dep@.1),
    {
        let ghost old_entries = self.entries();
        let mut i: usize = 0;
        while i < self.deps.len()
            invariant
                i <= self.deps@.len(),
                self.entries() == old_entries,
                old(self).entries() == old_entries,
                names_unique(old_entries),
                names_nonempty(old_entries),
                forall|j: int| 0 <= j < i ==> old_entries[j].0 != dep@.0,
            decreases self.deps@.len() - i,
        {
            if self.deps[i].name == dep.name {
                let ghost x = dep@;
                self.deps.set(i, dep);
                proof {
                    assert(self.entries() =~= old_entries.update(i as int, x));
                    lemma_entries_map_update(old_entries, i as int, x);
                    assert(old_entries[i as int].0 == x.0);
                    assert forall|a: int, b: int| 0 <= a < b < self.entries().len() implies self.entries()[a].0 != self.entries()[b].0 by {
                        assert(self.entries()[a].0 == old_entries[a].0);
                        assert(self.entries()[b].0 == old_entries[b].0);
                    }
                }
                return;
            }
            i = i + 1;
        }
        let ghost x = dep@;
        self.deps.push(dep);
        proof {
            assert(self.entries() =~= old_entries.push(x));
            assert(self.entries().drop_last() =~= old_entries);
        }
    }

    /// Parses a sequence of dependency entries, in order; a later entry
    /// replaces an earlier one of the same name.
    pub fn from_values(vals: &Vec<Value>) -> (r: Result<DependencyMap, ConfigError>)
        ensures
            match r {
                Ok(m) => m.wf() && deps_of(vals@) == Ok::<_, ConfigError>(m@),
                Err(e) => deps_of(vals@) == Err::<DepsModel, _>(e),
            },
    {
        let mut m = DependencyMap::new();
        let mut i: usize = 0;
        while i < vals.len()
            invariant
                i <= vals@.len(),
                m.wf(),
                deps_of(vals@.subrange(0, i as int)) == Ok::<_, ConfigError>(m@),
            decreases vals@.len() - i,
        {
            assert(vals@.subrange(0, i + 1).drop_last() =~= vals@.subrange(0, i as int));
            match Dependency::from_value(&vals[i]) {
                Ok(d) => {
                    m.insert(d);
                },
                Err(e) => {
                    proof {
                        lemma_deps_err_extends(vals@, i + 1, e);
                    }
                    return Err(e);
                },
            }
            i = i + 1;
        }
        assert(vals@.subrange(0, i as int) =~= vals@);
        Ok(m)
    }

    /// The sequence of record-form entries that stores this set.
    pub fn to_values(&self) -> (r: Vec<Value>)
        requires
            self.wf(),
        ensures
            r@.len() == self@.len(),
            deps_of(r@) == Ok::<_, ConfigError>(self@),
            forall|i: int| 0 <= i < r@.len() ==> #[trigger] record_form(r@[i]),
    {
        let mut out: Vec<Value> = Vec::new();
        let mut i: usize = 0;
        while i < self.deps.len()
            invariant
                i <= self.deps@.len(),
                self.wf(),
                out@.len() == i,
                deps_of(out@) == Ok::<_, ConfigError>(entries_map(self.entries().subrange(0, i as int))),
                forall|j: int| 0 <= j < out@.len() ==> #[trigger] record_form(out@[j]),
            decreases self.deps@.len() - i,
        {
            assert(self.entries()[i as int].0.len() > 0);
            let v = self.deps[i].to_value();
            let ghost before = out@;
            out.push(v);
            proof {
                assert(out@.drop_last() =~= before);
                assert(self.entries().subrange(0, i + 1).drop_last() =~= self.entries().subrange(0, i as int));
                assert(record_form(v));
            }
            i = i + 1;
        }
        proof {
            assert(self.entries().subrange(0, i as int) =~= self.entries());
            lemma_entries_map_len(self.entries());
        }
        out
    }
}

/// `v` is a dependency entry written in record form.
pub open spec fn record_form(v: Value) -> bool {
    dependency_of(v) is Ok && encodes(v, dependency_of(v)->Ok_0)
}

/// With unique names each entry's version is what the mapping holds for
/// its name.
proof fn lemma_entries_map_at(s: Seq<(Seq<char>, Option<Seq<char>>)>, i: int)
    requires
        names_unique(s),
        0 <= i < s.len(),
    ensures
        entries_map(s).contains_key(s[i].0),
        entries_map(s)[s[i].0] == s[i].1,
    decreases s.len(),
{
    if i < s.len() - 1 {
        let p = s.drop_last();
        lemma_entries_map_at(p, i);
        assert(p[i] == s[i]);
    }
}

/// With unique names the mapping has one key per entry.
proof fn lemma_entries_map_len(s: Seq<(Seq<char>, Option<Seq<char>>)>)
    requires
        names_unique(s),
    ensures
        entries_map(s).dom().finite(),
        entries_map(s).len() == s.len(),
        forall|n: Seq<char>| entries_map(s).contains_key(n) <==> exists|i: int| 0 <= i < s.len() && s[i].0 == n,
    decreases s.len(),
{
    if s.len() > 0 {
        let p = s.drop_last();
        lemma_entries_map_len(p);
        assert forall|n: Seq<char>| entries_map(s).contains_key(n) <==> exists|i: int| 0 <= i < s.len() && s[i].0 == n by {
            if entries_map(p).contains_key(n) {
                let i = choose|i: int| 0 <= i < p.len() && p[i].0 == n;
                assert(s[i].0 == n);
            }
            if exists|i: int| 0 <= i < s.len() && s[i].0 == n {
                let i = choose|i: int| 0 <= i < s.len() && s[i].0 == n;
                if i < s.len() - 1 {
                    assert(p[i].0 == n);
                }
            }
        }
        assert(!entries_map(p).contains_key(s.last().0));
    }
}

/// What the entries of a `workspace` record parse to. Both `dependencies`
/// (a sequence) and `plugin_manager` (a string) are required; other keys
/// are ignored.
pub open spec fn workspace_of(ws: Seq<(String, Value)>) -> Result<DocModel, ConfigError> {
    match (find_key(ws, "dependencies"@), find_key(ws, "plugin_manager"@)) {
        (Some(d), Some(m)) => match d {
            Value::Array(vals) => match deps_of(vals@) {
                Err(e) => Err(e),
                Ok(map) => match m {
                    Value::Str(s) => match manager_of(s@) {
                        Ok(k) => Ok((map, k)),
                        Err(e) => Err(e),
                    },
                    _ => Err(ConfigError::TypeMismatch),
                },
            },
            _ => Err(ConfigError::TypeMismatch),
        },
        _ => Err(ConfigError::MissingSection),
    }
}

/// What a whole document parses to: it must be a record with a `workspace`
/// record; other top-level keys are ignored.
pub open spec fn document_of(v: Value) -> Result<DocModel, ConfigError> {
    match v {
        Value::Table(top) => match find_key(top@, "workspace"@) {
            None => Err(ConfigError::MissingSection),
            Some(Value::Table(ws)) => workspace_of(ws@),
            Some(_) => Err(ConfigError::TypeMismatch),
        },
        _ => Err(ConfigError::TypeMismatch),
    }
}

/// The text stored under `workspace.plugin_manager`, if it is a string.
pub open spec fn manager_text(v: Value) -> Option<Seq<char>> {
    match v {
        Value::Table(top) => match find_key(top@, "workspace"@) {
            Some(Value::Table(ws)) => match find_key(ws@, "plugin_manager"@) {
                Some(Value::Str(s)) => Some(s@),
                _ => None,
            },
            _ => None,
        },
        _ => None,
    }
}

/// `vals` holds exactly the dependencies `m`, one record-form entry each.
pub open spec fn saved_deps(vals: Seq<Value>, m: DepsModel) -> bool {
    &&& vals.len() == m.len()
    &&& deps_of(vals) == Ok::<_, ConfigError>(m)
    &&& forall|i: int| 0 <= i < vals.len() ==> #[trigger] record_form(vals[i])
}

/// `v` is the stored form of a workspace record with dependencies `m`: the
/// key `dependencies`, then `plugin_manager` with the canonical alias.
pub open spec fn saved_workspace(v: Value, m: DepsModel) -> bool {
    match v {
        Value::Table(ws) => {
            &&& ws@.len() == 2
            &&& ws@[0].0@ == "dependencies"@
            &&& ws@[1].0@ == "plugin_manager"@
            &&& match ws@[0].1 {
                Value::Array(vals) => saved_deps(vals@, m),
                _ => false,
            }
            &&& match ws@[1].1 {
                Value::Str(t) => t@ == "lazy"@,
                _ => false,
            }
        },
        _ => false,
    }
}

/// `v` is the stored form of a document with dependencies `m`: one key,
/// `workspace`, holding the stored workspace record.
pub open spec fn saved_document(v: Value, m: DepsModel) -> bool {
    match v {
        Value::Table(top) => {
            &&& top@.len() == 1
            &&& top@[0].0@ == "workspace"@
            &&& saved_workspace(top@[0].1, m)
        },
        _ => false,
    }
}

/// A stored document loads back to its dependencies and the `Lazy` manager,
/// which it names by the canonical alias.
pub proof fn lemma_saved_document_loads(v: Value, m: DepsModel)
    requires
        saved_document(v, m),
    ensures
        document_of(v) == Ok::<DocModel, ConfigError>((m, PluginManager::Lazy)),
        manager_text(v) == Some("lazy"@),
{
    reveal_strlit("dependencies");
    reveal_strlit("plugin_manager");
    assert("dependencies"@ != "plugin_manager"@) by {
        assert("dependencies"@.len() != "plugin_manager"@.len());
    }
    if let Value::Table(top) = v {
        let t = top@;
        assert(find_key(t, "workspace"@) == Some(t[0].1));
        if let Value::Table(ws) = t[0].1 {
            let w = ws@;
            assert(w.drop_last().last() == w[0]);
            assert(find_key(w.drop_last(), "dependencies"@) == Some(w[0].1));
            assert(find_key(w, "dependencies"@) == Some(w[0].1));
            assert(find_key(w, "plugin_manager"@) == Some(w[1].1));
        }
    }
}

/// The section that holds a workspace's settings.
#[derive(Debug)]
pub struct Workspace {
    pub dependencies: DependencyMap,
    pub plugin_manager: PluginManager,
}

/// A whole configuration document.
#[derive(Debug)]
pub struct EnvimConfig {
    pub workspace: Workspace,
}

impl View for EnvimConfig {
    type V = DocModel;

    open spec fn view(&self) -> DocModel {
        (self.workspace.dependencies@, self.workspace.plugin_manager)
    }
}

impl Workspace {
    /// Parses the entries of a `workspace` record.
    pub fn from_entries(ws: &Vec<(String, Value)>) -> (r: Result<Workspace, ConfigError>)
        ensures
            match r {
                Ok(w) => w.dependencies.wf() && workspace_of(ws@) == Ok::<_, ConfigError>(
                    (w.dependencies@, w.plugin_manager),
                ),
                Err(e) => workspace_of(ws@) == Err::<DocModel, _>(e),
            },
    {
        let deps_key = String::from_str("dependencies");
        let manager_key = String::from_str("plugin_manager");
        let d = lookup(ws, &deps_key);
        let m = lookup(ws, &manager_key);
        match (d, m) {
            (Some(d), Some(m)) => match d {
                Value::Array(vals) => match DependencyMap::from_values(vals) {
                    Err(e) => Err(e),
                    Ok(dependencies) => match m {
                        Value::Str(s) => match PluginManager::parse(s) {
                            Ok(plugin_manager) => Ok(Workspace { dependencies, plugin_manager }),
                            Err(e) => Err(e),
                        },
                        _ => Err(ConfigError::TypeMismatch),
                    },
                },
                _ => Err(ConfigError::TypeMismatch),
            },
            _ => Err(ConfigError::MissingSection),
        }
    }

    /// The stored form of this section.
    pub fn to_value(&self) -> (r: Value)
        requires
            self.dependencies.wf(),
        ensures
            saved_workspace(r, self.dependencies@),
    {
        let mut ws: Vec<(String, Value)> = Vec::new();
        ws.push((String::from_str("dependencies"), Value::Array(self.dependencies.to_values())));
        ws.push((String::from_str("plugin_manager"), self.plugin_manager.to_value()));
        Value::Table(ws)
    }
}

impl EnvimConfig {
    /// Names in the dependency set are unique and non-empty.
    pub open spec fn wf(&self) -> bool {
        self.workspace.dependencies.wf()
    }

    /// A document with no dependencies.
    pub fn new(plugin_manager: PluginManager) -> (r: EnvimConfig)
        ensures
            r.wf(),
            r@ == (Map::<Seq<char>, Option<Seq<char>>>::empty(), plugin_manager),
    {
        EnvimConfig { workspace: Workspace { dependencies: DependencyMap::new(), plugin_manager } }
    }

    /// Parses a whole document; the first violation found is returned.
    pub fn load(v: &Value) -> (r: Result<EnvimConfig, ConfigError>)
        ensures
            match r {
                Ok(c) => c.wf() && document_of(*v) == Ok::<_, ConfigError>(c@),
                Err(e) => document_of(*v) == Err::<DocModel, _>(e),
            },
    {
        match v {
            Value::Table(top) => {
                let key = String::from_str("workspace");
                match lookup(top, &key) {
                    None => Err(ConfigError::MissingSection),
                    Some(Value::Table(ws)) => match Workspace::from_entries(ws) {
                        Ok(workspace) => Ok(EnvimConfig { workspace }),
                        Err(e) => Err(e),
                    },
                    Some(_) => Err(ConfigError::TypeMismatch),
                }
            },
            _ => Err(ConfigError::TypeMismatch),
        }
    }

    /// The stored form of this document: every dependency in record form and
    /// the manager under its canonical alias.
    pub fn save(&self) -> (r: Value)
        requires
            self.wf(),
        ensures
            saved_document(r, self.workspace.dependencies@),
            document_of(r) == Ok::<DocModel, ConfigError>(
                (self.workspace.dependencies@, PluginManager::Lazy),
            ),
            manager_text(r) == Some("lazy"@),
    {
        let mut top: Vec<(String, Value)> = Vec::new();
        top.push((String::from_str("workspace"), self.workspace.to_value()));
        let r = Value::Table(top);
        proof {
            lemma_saved_document_loads(r, self.workspace.dependencies@);
        }
        r
    }

    /// Adds a dependency, or replaces the one of the same name.
    pub fn add_dependency(&mut self, dep: Dependency)
        requires
            old(self).wf(),
            dep.name@.len() > 0,
        ensures
            final(self).wf(),
            final(self)@ == (old(self)@.0.insert(dep@.0, dep@.1), old(self)@.1),
    {
        self.workspace.dependencies.insert(dep);
    }
}

/// Round trip: saving a loaded document and loading the result gives the
/// same dependency mapping, with the manager under its canonical alias
/// whichever alias the first text used.
pub proof fn lemma_round_trip(text: Value, saved: Value)
    requires
        document_of(text) is Ok,
        saved_document(saved, document_of(text)->Ok_0.0),
    ensures
        document_of(saved) is Ok,
        document_of(saved)->Ok_0.0 == document_of(text)->Ok_0.0,
        document_of(saved)->Ok_0.1 == document_of(text)->Ok_0.1,
        manager_text(saved) == Some("lazy"@),
{
    lemma_saved_document_loads(saved, document_of(text)->Ok_0.0);
}

/// A bare-string entry with a non-empty name parses to that name with no
/// version.
pub proof fn lemma_bare_entry(s: String)
    requires
        s@.len() > 0,
    ensures
        dependency_of(Value::Str(s)) == Ok::<_, ConfigError>((s@, None::<Seq<char>>)),
{
}

/// A record entry with a non-empty string `name` and a string `version`
/// parses to exactly those two texts.
pub proof fn lemma_full_record(entries: Vec<(String, Value)>, name: String, version: String)
    requires
        name@.len() > 0,
        find_key(entries@, "name"@) == Some(Value::Str(name)),
        find_key(entries@, "version"@) == Some(Value::Str(version)),
    ensures
        dependency_of(Value::Table(entries)) == Ok::<_, ConfigError>((name@, Some(version@))),
{
}

/// A record entry without `name` fails with `MissingField`.
pub proof fn lemma_record_without_name(entries: Vec<(String, Value)>)
    requires
        find_key(entries@, "name"@) is None,
    ensures
        dependency_of(Value::Table(entries)) == Err::<(Seq<char>, Option<Seq<char>>), _>(
            ConfigError::MissingField,
        ),
{
}

/// An empty name, bare or in a record, fails with `MissingField`.
pub proof fn lemma_empty_name(s: String, entries: Vec<(String, Value)>)
    requires
        s@.len() == 0,
        find_key(entries@, "name"@) == Some(Value::Str(s)),
    ensures
        dependency_of(Value::Str(s)) == Err::<(Seq<char>, Option<Seq<char>>), _>(
            ConfigError::MissingField,
        ),
        dependency_of(Value::Table(entries)) == Err::<(Seq<char>, Option<Seq<char>>), _>(
            ConfigError::MissingField,
        ),
{
}

/// An entry that is neither a string nor a record fails with `TypeMismatch`.
pub proof fn lemma_entry_of_other_shape(v: Value)
    requires
        !(v is Str),
        !(v is Table),
    ensures
        dependency_of(v) == Err::<(Seq<char>, Option<Seq<char>>), _>(ConfigError::TypeMismatch),
{
}

/// Both aliases resolve to the same manager; any other text is refused with
/// `UnsupportedManager`.
pub proof fn lemma_manager_aliases(s: Seq<char>)
    ensures
        manager_of("lazy"@) == manager_of("lazynvim"@),
        manager_of("lazy"@) is Ok,
        s != "lazy"@ && s != "lazynvim"@ ==> manager_of(s) == Err::<PluginManager, _>(
            ConfigError::UnsupportedManager,
        ),
{
}

/// Last write wins: when the entries parse, the name of entry `j` maps to
/// the version of the last entry that carries that name.
pub proof fn lemma_last_write_wins(vals: Seq<Value>, j: int)
    requires
        deps_of(vals) is Ok,
        0 <= j < vals.len(),
        forall|k: int|
            j < k < vals.len() ==> (#[trigger] dependency_of(vals[k]))->Ok_0.0 != dependency_of(
                vals[j],
            )->Ok_0.0,
    ensures
        dependency_of(vals[j]) is Ok,
        deps_of(vals)->Ok_0.contains_key(dependency_of(vals[j])->Ok_0.0),
        deps_of(vals)->Ok_0[dependency_of(vals[j])->Ok_0.0] == dependency_of(vals[j])->Ok_0.1,
    decreases vals.len(),
{
    let p = vals.drop_last();
    if j < vals.len() - 1 {
        assert(vals[j] == p[j]);
        assert forall|k: int| j < k < p.len() implies (#[trigger] dependency_of(p[k]))->Ok_0.0
            != dependency_of(p[j])->Ok_0.0 by {
            assert(p[k] == vals[k]);
        }
        lemma_last_write_wins(p, j);
        assert(dependency_of(vals[vals.len() - 1])->Ok_0.0 != dependency_of(vals[j])->Ok_0.0);
    }
}

/// Entries of different names may trade places: swapping two neighbouring
/// entries whose names differ leaves the parsed mapping unchanged.
pub proof fn lemma_swap_distinct_entries(vals: Seq<Value>, i: int)
    requires
        deps_of(vals) is Ok,
        0 <= i,
        i + 1 < vals.len(),
        dependency_of(vals[i])->Ok_0.0 != dependency_of(vals[i + 1])->Ok_0.0,
    ensures
        deps_of(vals.update(i, vals[i + 1]).update(i + 1, vals[i])) == deps_of(vals),
    decreases vals.len(),
{
    let w = vals.update(i, vals[i + 1]).update(i + 1, vals[i]);
    if i + 1 < vals.len() - 1 {
        let p = vals.drop_last();
        assert(w.drop_last() =~= p.update(i, p[i + 1]).update(i + 1, p[i]));
        assert(deps_of(p) is Ok);
        lemma_swap_distinct_entries(p, i);
        assert(w.last() == vals.last());
        assert(deps_of(w.drop_last()) == deps_of(p));
        assert(deps_of(w) == deps_of(vals));
    } else {
        let p = vals.drop_last();
        let q = p.drop_last();
        assert(vals.last() == vals[i + 1]);
        assert(p.last() == vals[i]);
        assert(deps_of(p) is Ok);
        assert(deps_of(q) is Ok);
        assert(w.drop_last().drop_last() =~= q);
        assert(w.drop_last().last() == vals[i + 1]);
        assert(w.last() == vals[i]);
        let m = deps_of(q)->Ok_0;
        let a = dependency_of(vals[i])->Ok_0;
        let b = dependency_of(vals[i + 1])->Ok_0;
        assert(deps_of(vals) == Ok::<DepsModel, ConfigError>(m.insert(a.0, a.1).insert(b.0, b.1)));
        assert(deps_of(w.drop_last()) == Ok::<DepsModel, ConfigError>(m.insert(b.0, b.1)));
        assert(deps_of(w) == Ok::<DepsModel, ConfigError>(m.insert(b.0, b.1).insert(a.0, a.1)));
        assert(m.insert(a.0, a.1).insert(b.0, b.1) =~= m.insert(b.0, b.1).insert(a.0, a.1));
    }
}

} // verus!
