use envim::cli::{get_current_config_dir, nvim_environment, run, run_init, deploy_template, Action, ClArgs, Commands, RunError, Template};

#[test]
fn init_without_template_uses_default() {
    let args = ClArgs { command: Some(Commands::Init { template: None }) };
    assert!(matches!(run(&args), Ok(Action::Init(Template::LazyBase))));
}

#[test]
fn init_with_templates() {
    let lazyvim = ClArgs { command: Some(Commands::Init { template: Some("lazyvim".to_string()) }) };
    assert!(matches!(run(&lazyvim), Ok(Action::Init(Template::LazyVim))));
    let lazy = ClArgs { command: Some(Commands::Init { template: Some("lazy".to_string()) }) };
    assert!(matches!(run(&lazy), Ok(Action::Init(Template::LazyBase))));
    let other = ClArgs { command: Some(Commands::Init { template: Some("kickstart".to_string()) }) };
    assert!(matches!(run(&other), Err(RunError::TemplateNotFound)));
}

#[test]
fn run_and_add_and_nothing() {
    let args = ClArgs { command: Some(Commands::Run { extra_args: vec!["-u".to_string(), "x".to_string()] }) };
    match run(&args) {
        Ok(Action::RunNvim(a)) => assert_eq!(a, vec!["-u", "x"]),
        _ => panic!("expected run"),
    }
    let add = ClArgs { command: Some(Commands::Add { plugin: "a/b".to_string() }) };
    assert!(matches!(run(&add), Ok(Action::AddPlugin(p)) if p == "a/b"));
    assert!(matches!(run(&ClArgs { command: None }), Ok(Action::Nothing)));
}

#[test]
fn init_checks_template_name() {
    assert_eq!(run_init(&"lazyvim".to_string()), Ok(Template::LazyVim));
    assert_eq!(run_init(&"vim".to_string()), Err(RunError::TemplateNotFound));
}

#[test]
fn template_names() {
    assert_eq!(deploy_template(&"default".to_string()), Some(Template::LazyBase));
    assert_eq!(deploy_template(&"LazyVim".to_string()), None);
}

#[test]
fn directories() {
    assert_eq!(get_current_config_dir(), vec![".envim", "config", "nvim"]);
    let env = nvim_environment(&vec!["/home".to_string(), "p".to_string()]);
    assert_eq!(env.len(), 6);
    assert_eq!(env[0].0, "XDG_CONFIG_HOME");
    assert_eq!(env[0].1, vec!["/home", "p", ".envim", "config"]);
    assert_eq!(env[5].0, "XDG_LOGFILE");
    assert_eq!(env[5].1, vec!["/home", "p", ".envim", "log"]);
}
