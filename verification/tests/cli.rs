use codexhub::cli::{Cli, CliAction, Command};

fn args(list: &[&str]) -> Vec<String> {
    list.iter().map(|s| s.to_string()).collect()
}

fn run(list: &[&str]) -> (Option<String>, Command) {
    match Cli::parse(&args(list), false) {
        Ok(CliAction::Run(cli)) => (cli.config_path, cli.command),
        other => panic!("unexpected parse result {other:?}"),
    }
}

fn error(list: &[&str]) -> String {
    match Cli::parse(&args(list), false) {
        Err(e) => e.message(),
        other => panic!("expected an error, got {other:?}"),
    }
}

#[test]
fn default_command_depends_on_gui_build() {
    assert!(matches!(Cli::parse(&args(&[]), true), Ok(CliAction::Run(Cli { command: Command::Gui, .. }))));
    assert!(matches!(run(&[]).1, Command::Daemon));
}

#[test]
fn simple_commands_and_aliases() {
    assert!(matches!(run(&["gui"]).1, Command::Gui));
    assert!(matches!(run(&["daemon"]).1, Command::Daemon));
    assert!(matches!(run(&["run"]).1, Command::Daemon));
    assert!(matches!(run(&["on"]).1, Command::On));
    assert!(matches!(run(&["off"]).1, Command::Off));
    assert!(matches!(run(&["status", "ignored"]).1, Command::Status));
}

#[test]
fn leading_config_pairs_keep_the_last_path() {
    let (config, command) = run(&["--config", "a.toml", "-c", "b.toml", "status"]);
    assert_eq!(config.as_deref(), Some("b.toml"));
    assert!(matches!(command, Command::Status));
    let (config, command) = run(&["-c", "only.toml"]);
    assert_eq!(config.as_deref(), Some("only.toml"));
    assert!(matches!(command, Command::Daemon));
}

#[test]
fn config_flag_without_path_is_refused() {
    assert_eq!(error(&["--config"]), "--config requires a path");
    assert_eq!(error(&["-c", "x.toml", "-c"]), "-c requires a path");
}

#[test]
fn configure_codex_app_reads_every_option() {
    let (_, command) = run(&[
        "configure-codex-app",
        "--codex-home",
        "/home/codex",
        "--provider-name",
        "CodexHub",
        "--provider-base-url",
        "http://127.0.0.1:3847/v1",
        "--provider-key",
        "tok",
        "--model",
        "gpt-5",
        "--model",
        "gpt-6",
    ]);
    match command {
        Command::ConfigureCodexApp { codex_home, provider_name, provider_base_url, provider_key, model } => {
            assert_eq!(codex_home.as_deref(), Some("/home/codex"));
            assert_eq!(provider_name.as_deref(), Some("CodexHub"));
            assert_eq!(provider_base_url.as_deref(), Some("http://127.0.0.1:3847/v1"));
            assert_eq!(provider_key.as_deref(), Some("tok"));
            assert_eq!(model.as_deref(), Some("gpt-6"));
        }
        other => panic!("unexpected command {other:?}"),
    }
}

#[test]
fn configure_codex_app_errors() {
    assert_eq!(error(&["configure-codex-app", "--model"]), "--model requires a model name");
    assert_eq!(error(&["configure-codex-app", "--provider-key"]), "--provider-key requires a token");
    assert_eq!(error(&["configure-codex-app", "--provider-base-url"]), "--provider-base-url requires a URL");
    assert_eq!(error(&["configure-codex-app", "--provider-name"]), "--provider-name requires a name");
    assert_eq!(error(&["configure-codex-app", "--codex-home"]), "--codex-home requires a path");
    assert_eq!(
        error(&["configure-codex-app", "--bogus", "x"]),
        "unknown configure-codex-app argument `--bogus`"
    );
}

#[test]
fn uninstall_codex_app_options() {
    match run(&["uninstall-codex-app", "--codex-home", "/h"]).1 {
        Command::UninstallCodexApp { codex_home } => assert_eq!(codex_home.as_deref(), Some("/h")),
        other => panic!("unexpected command {other:?}"),
    }
    match run(&["uninstall-codex-app"]).1 {
        Command::UninstallCodexApp { codex_home } => assert_eq!(codex_home, None),
        other => panic!("unexpected command {other:?}"),
    }
    assert_eq!(error(&["uninstall-codex-app", "--codex-home"]), "--codex-home requires a path");
    assert_eq!(error(&["uninstall-codex-app", "--model", "m"]), "unknown uninstall-codex-app argument `--model`");
}

#[test]
fn help_shim_and_unknown_commands() {
    assert!(matches!(Cli::parse(&args(&["help"]), false), Ok(CliAction::Help)));
    assert!(matches!(Cli::parse(&args(&["-h"]), false), Ok(CliAction::Help)));
    assert!(matches!(Cli::parse(&args(&["-c", "x", "--help"]), false), Ok(CliAction::Help)));
    assert_eq!(
        error(&["install-shim"]),
        "CLI shim support has been removed. Use `codexhub configure-codex-app` and Codex App remote-control instead."
    );
    assert_eq!(error(&["frobnicate"]), "unknown command `frobnicate`. Run `codexhub help`.");
}

#[test]
fn leading_config_pair_only_sets_the_path() {
    let (config, command) = run(&["--config", "p.toml", "off"]);
    assert_eq!(config.as_deref(), Some("p.toml"));
    assert!(matches!(command, Command::Off));
    let (config, _) = run(&["--config", "p.toml", "-c", "q.toml", "off"]);
    assert_eq!(config.as_deref(), Some("q.toml"));
    assert_eq!(error(&["--config", "p.toml", "nope"]), error(&["nope"]));
}
