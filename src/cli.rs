//! The command line's arguments and what each command decides to do.
use vstd::prelude::*;
use vstd::string::StringExecFns;
use crate::plugin::texts;

verus! {

/// The parsed command line.
#[derive(Debug)]
pub struct ClArgs {
    pub command: Option<Commands>,
}

/// The commands the tool offers.
#[derive(Debug)]
pub enum Commands {
    /// Create the environment from a template.
    Init { template: Option<String> },
    /// Start the editor inside the environment, with extra arguments.
    Run { extra_args: Vec<String> },
    /// Add a plugin, given as `<author>/<plugin-name>`.
    Add { plugin: String },
}

/// The starter configurations that `init` can deploy.
#[derive(Clone, Copy, Debug, PartialEq, Eq, Structural)]
pub enum Template {
    /// A bare setup of the lazy plugin manager.
    LazyBase,
    /// The LazyVim starter.
    LazyVim,
}

/// What a command asks the front end to carry out.
#[derive(Debug)]
pub enum Action {
    Init(Template),
    RunNvim(Vec<String>),
    AddPlugin(String),
    Nothing,
}

/// Why a command was refused.
#[derive(Clone, Copy, Debug, PartialEq, Eq, Structural)]
pub enum RunError {
    TemplateNotFound,
}

/// The template that a name selects: `default` and `lazy` select the bare
/// setup, `lazyvim` the LazyVim starter.
pub open spec fn template_of(name: Seq<char>) -> Option<Template> {
    if name == "default"@ || name == "lazy"@ {
        Some(Template::LazyBase)
    } else if name == "lazyvim"@ {
        Some(Template::LazyVim)
    } else {
        None
    }
}

/// The template name `init` uses: the one given, else `default`.
pub open spec fn template_name(template: Option<String>) -> Seq<char> {
    match template {
        Some(t) => t@,
        None => "default"@,
    }
}

/// The template that `init` deploys for a name, if any.
pub fn deploy_template(name: &String) -> (r: Option<Template>)
    ensures
        r == template_of(name@),
{
    if *name == String::from_str("default") || *name == String::from_str("lazy") {
        Some(Template::LazyBase)
    } else if *name == String::from_str("lazyvim") {
        Some(Template::LazyVim)
    } else {
        None
    }
}

/// Checks the template name that `init` was given and picks the template;
/// an unknown name is refused.
pub fn run_init(name: &String) -> (r: Result<Template, RunError>)
    ensures
        match template_of(name@) {
            Some(t) => r == Ok::<Template, RunError>(t),
            None => r == Err::<Template, RunError>(RunError::TemplateNotFound),
        },
{
    match deploy_template(name) {
        Some(t) => Ok(t),
        None => Err(RunError::TemplateNotFound),
    }
}

/// Decides what the given command line asks for.
pub fn run(args: &ClArgs) -> (r: Result<Action, RunError>)
    ensures
        match args.command {
            None => r matches Ok(Action::Nothing),
            Some(Commands::Init { template }) => match template_of(template_name(template)) {
                Some(t) => r matches Ok(Action::Init(u)) && u == t,
                None => r == Err::<Action, RunError>(RunError::TemplateNotFound),
            },
            Some(Commands::Run { extra_args }) => r matches Ok(Action::RunNvim(a)) && texts(a@)
                == texts(extra_args@),
            Some(Commands::Add { plugin }) => r matches Ok(Action::AddPlugin(p)) && p@ == plugin@,
        },
{
    match &args.command {
        None => Ok(Action::Nothing),
        Some(Commands::Init { template }) => {
            let name = match template {
                Some(t) => t.clone(),
                None => String::from_str("default"),
            };
            match run_init(&name) {
                Ok(t) => Ok(Action::Init(t)),
                Err(e) => Err(e),
            }
        },
        Some(Commands::Run { extra_args }) => {
            let mut a: Vec<String> = Vec::new();
            let mut i: usize = 0;
            while i < extra_args.len()
                invariant
                    i <= extra_args@.len(),
                    a@.len() == i,
                    texts(a@) == texts(extra_args@).subrange(0, i as int),
                decreases extra_args@.len() - i,
            {
                let s = extra_args[i].clone();
                let ghost before = a@;
                a.push(s);
                assert(texts(a@) =~= texts(before).push(s@));
                assert(texts(a@) =~= texts(extra_args@).subrange(0, i + 1));
                i = i + 1;
            }
            assert(texts(extra_args@).subrange(0, i as int) =~= texts(extra_args@));
            Ok(Action::RunNvim(a))
        },
        Some(Commands::Add { plugin }) => Ok(Action::AddPlugin(plugin.clone())),
    }
}

/// The editor's configuration directory inside the environment, relative to
/// the project: `.envim/config/nvim`.
pub fn get_current_config_dir() -> (r: Vec<String>)
    ensures
        texts(r@) == seq![".envim"@, "config"@, "nvim"@],
{
    let mut r: Vec<String> = Vec::new();
    r.push(String::from_str(".envim"));
    r.push(String::from_str("config"));
    r.push(String::from_str("nvim"));
    assert(texts(r@) =~= seq![".envim"@, "config"@, "nvim"@]);
    r
}

/// The environment variables the editor runs with, and the directory under
/// `.envim` that each one names.
pub open spec fn xdg_table() -> Seq<(Seq<char>, Seq<char>)> {
    seq![
        ("XDG_CONFIG_HOME"@, "config"@),
        ("XDG_DATA_HOME"@, "data"@),
        ("XDG_RUNTIME_DIR"@, "runtime"@),
        ("XDG_STATE_HOME"@, "state"@),
        ("XDG_CACHE_HOME"@, "cache"@),
        ("XDG_LOGFILE"@, "log"@),
    ]
}

fn push_variable(env: &mut Vec<(String, Vec<String>)>, pwd: &Vec<String>, key: &str, dir: &str)
    ensures
        final(env)@.len() == old(env)@.len() + 1,
        forall|j: int| 0 <= j < old(env)@.len() ==> final(env)@[j] == old(env)@[j],
        final(env)@.last().0@ == key@,
        texts(final(env)@.last().1@) == texts(pwd@) + seq![".envim"@, dir@],
{
    let mut path: Vec<String> = Vec::new();
    let mut i: usize = 0;
    while i < pwd.len()
        invariant
            i <= pwd@.len(),
            path@.len() == i,
            texts(path@) == texts(pwd@).subrange(0, i as int),
        decreases pwd@.len() - i,
    {
        let s = pwd[i].clone();
        let ghost before = path@;
        path.push(s);
        assert(texts(path@) =~= texts(before).push(s@));
        assert(texts(path@) =~= texts(pwd@).subrange(0, i + 1));
        i = i + 1;
    }
    path.push(String::from_str(".envim"));
    path.push(String::from_str(dir));
    assert(texts(pwd@).subrange(0, i as int) =~= texts(pwd@));
    assert(texts(path@) =~= texts(pwd@) + seq![".envim"@, dir@]);
    env.push((String::from_str(key), path));
}

/// The environment the editor is started with, for the project directory
/// `pwd`: each variable of the table names `pwd/.envim/<dir>`.
pub fn nvim_environment(pwd: &Vec<String>) -> (r: Vec<(String, Vec<String>)>)
    ensures
        r@.len() == xdg_table().len(),
        forall|j: int|
            0 <= j < r@.len() ==> (#[trigger] r@[j]).0@ == xdg_table()[j].0 && texts(r@[j].1@)
                == texts(pwd@) + seq![".envim"@, xdg_table()[j].1],
{
    let mut env: Vec<(String, Vec<String>)> = Vec::new();
    push_variable(&mut env, pwd, "XDG_CONFIG_HOME", "config");
    push_variable(&mut env, pwd, "XDG_DATA_HOME", "data");
    push_variable(&mut env, pwd, "XDG_RUNTIME_DIR", "runtime");
    push_variable(&mut env, pwd, "XDG_STATE_HOME", "state");
    push_variable(&mut env, pwd, "XDG_CACHE_HOME", "cache");
    push_variable(&mut env, pwd, "XDG_LOGFILE", "log");
    env
}

} // verus!
