//! Command-line parsing: leading `--config PATH` pairs, then a command and
//! its own `--flag VALUE` options.
use vstd::prelude::*;
use crate::config::strs;
use crate::text::{append_str, append_vec, eq_str, from_chars, to_chars};
use crate::tool_names::opt_view;

verus! {

#[derive(Debug)]
pub enum Command {
    Gui,
    Daemon,
    On,
    Off,
    Status,
    ConfigureCodexApp {
        codex_home: Option<String>,
        provider_name: Option<String>,
        provider_base_url: Option<String>,
        provider_key: Option<String>,
        model: Option<String>,
    },
    UninstallCodexApp { codex_home: Option<String> },
}

#[derive(Debug)]
pub struct Cli {
    pub config_path: Option<String>,
    pub command: Command,
}

/// What the command line asks for: a command to run, or the usage text.
#[derive(Debug)]
pub enum CliAction {
    Run(Cli),
    Help,
}

/// A refused command line, with the message shown to the user.
#[derive(Debug)]
pub struct CliError {
    pub message: String,
}

/// The options of `configure-codex-app`, in the order of the flags.
pub ghost struct ConfigureOptions {
    pub codex_home: Option<Seq<char>>,
    pub provider_name: Option<Seq<char>>,
    pub provider_base_url: Option<Seq<char>>,
    pub provider_key: Option<Seq<char>>,
    pub model: Option<Seq<char>>,
}

pub ghost enum CommandView {
    Gui,
    Daemon,
    On,
    Off,
    Status,
    ConfigureCodexApp(ConfigureOptions),
    UninstallCodexApp(Option<Seq<char>>),
}

pub ghost enum ActionView {
    Run(Option<Seq<char>>, CommandView),
    Help,
}

pub open spec fn command_view(c: Command) -> CommandView {
    match c {
        Command::Gui => CommandView::Gui,
        Command::Daemon => CommandView::Daemon,
        Command::On => CommandView::On,
        Command::Off => CommandView::Off,
        Command::Status => CommandView::Status,
        Command::ConfigureCodexApp { codex_home, provider_name, provider_base_url, provider_key, model } => {
            CommandView::ConfigureCodexApp(
                ConfigureOptions {
                    codex_home: opt_view(codex_home),
                    provider_name: opt_view(provider_name),
                    provider_base_url: opt_view(provider_base_url),
                    provider_key: opt_view(provider_key),
                    model: opt_view(model),
                },
            )
        },
        Command::UninstallCodexApp { codex_home } => CommandView::UninstallCodexApp(opt_view(codex_home)),
    }
}

pub open spec fn action_view(a: CliAction) -> ActionView {
    match a {
        CliAction::Run(cli) => ActionView::Run(opt_view(cli.config_path), command_view(cli.command)),
        CliAction::Help => ActionView::Help,
    }
}

pub open spec fn is_config_flag(a: Seq<char>) -> bool {
    a == "--config"@ || a == "-c"@
}

/// Where the command starts: past the leading `--config PATH` / `-c PATH`
/// pairs.
pub open spec fn command_start(args: Seq<Seq<char>>, i: nat) -> nat
    decreases args.len() - i,
{
    if i + 1 < args.len() && is_config_flag(args[i as int]) {
        command_start(args, i + 2)
    } else {
        i
    }
}

/// The command used when none is given: the GUI in builds that have one.
pub open spec fn default_command_view(gui: bool) -> CommandView {
    if gui {
        CommandView::Gui
    } else {
        CommandView::Daemon
    }
}

pub open spec fn requires_message(flag: Seq<char>, what: Seq<char>) -> Seq<char> {
    flag + " requires "@ + what
}

pub open spec fn unknown_argument_message(command: Seq<char>, arg: Seq<char>) -> Seq<char> {
    "unknown "@ + command + " argument `"@ + arg + "`"@
}

pub open spec fn shim_removed_message() -> Seq<char> {
    "CLI shim support has been removed. Use `codexhub configure-codex-app` and Codex App remote-control instead."@
}

pub open spec fn unknown_command_message(command: Seq<char>) -> Seq<char> {
    "unknown command `"@ + command + "`. Run `codexhub help`."@
}

/// What a `configure-codex-app` flag expects, or nothing for an unknown flag.
pub open spec fn configure_flag_value(flag: Seq<char>) -> Option<Seq<char>> {
    if flag == "--codex-home"@ {
        Some("a path"@)
    } else if flag == "--provider-name"@ {
        Some("a name"@)
    } else if flag == "--provider-base-url"@ {
        Some("a URL"@)
    } else if flag == "--provider-key"@ {
        Some("a token"@)
    } else if flag == "--model"@ {
        Some("a model name"@)
    } else {
        None
    }
}

pub open spec fn set_configure_option(o: ConfigureOptions, flag: Seq<char>, value: Seq<char>) -> ConfigureOptions {
    if flag == "--codex-home"@ {
        ConfigureOptions { codex_home: Some(value), ..o }
    } else if flag == "--provider-name"@ {
        ConfigureOptions { provider_name: Some(value), ..o }
    } else if flag == "--provider-base-url"@ {
        ConfigureOptions { provider_base_url: Some(value), ..o }
    } else if flag == "--provider-key"@ {
        ConfigureOptions { provider_key: Some(value), ..o }
    } else {
        ConfigureOptions { model: Some(value), ..o }
    }
}

pub open spec fn no_options() -> ConfigureOptions {
    ConfigureOptions { codex_home: None, provider_name: None, provider_base_url: None, provider_key: None, model: None }
}

/// The options of `configure-codex-app` from position `j` of its arguments
/// on, given those read so far: flags and values alternate, a later flag
/// overrides an earlier one, and the first unknown flag or flag without a
/// value is refused.
pub open spec fn scan_configure(args: Seq<Seq<char>>, j: nat, acc: ConfigureOptions) -> Result<ConfigureOptions, Seq<char>>
    decreases args.len() - j,
{
    if j >= args.len() {
        Ok(acc)
    } else {
        let flag = args[j as int];
        match configure_flag_value(flag) {
            None => Err(unknown_argument_message("configure-codex-app"@, flag)),
            Some(what) => if j + 1 >= args.len() {
                Err(requires_message(flag, what))
            } else {
                scan_configure(args, j + 2, set_configure_option(acc, flag, args[j + 1 as int]))
            },
        }
    }
}

/// The `--codex-home` of `uninstall-codex-app` from position `j` on.
pub open spec fn scan_uninstall(args: Seq<Seq<char>>, j: nat, acc: Option<Seq<char>>) -> Result<Option<Seq<char>>, Seq<char>>
    decreases args.len() - j,
{
    if j >= args.len() {
        Ok(acc)
    } else {
        let flag = args[j as int];
        if flag != "--codex-home"@ {
            Err(unknown_argument_message("uninstall-codex-app"@, flag))
        } else if j + 1 >= args.len() {
            Err(requires_message(flag, "a path"@))
        } else {
            scan_uninstall(args, j + 2, Some(args[j + 1 as int]))
        }
    }
}

/// What the command words (the arguments after the leading options) ask for.
pub open spec fn parse_command(rest: Seq<Seq<char>>, gui: bool) -> Result<Option<CommandView>, Seq<char>> {
    if rest.len() == 0 {
        Ok(Some(default_command_view(gui)))
    } else {
        let w = rest[0];
        if w == "gui"@ {
            Ok(Some(CommandView::Gui))
        } else if w == "daemon"@ || w == "run"@ {
            Ok(Some(CommandView::Daemon))
        } else if w == "on"@ {
            Ok(Some(CommandView::On))
        } else if w == "off"@ {
            Ok(Some(CommandView::Off))
        } else if w == "status"@ {
            Ok(Some(CommandView::Status))
        } else if w == "configure-codex-app"@ {
            match scan_configure(rest.drop_first(), 0, no_options()) {
                Ok(o) => Ok(Some(CommandView::ConfigureCodexApp(o))),
                Err(e) => Err(e),
            }
        } else if w == "uninstall-codex-app"@ {
            match scan_uninstall(rest.drop_first(), 0, None) {
                Ok(h) => Ok(Some(CommandView::UninstallCodexApp(h))),
                Err(e) => Err(e),
            }
        } else if w == "install-shim"@ || w == "uninstall-shim"@ || w == "shim"@ {
            Err(shim_removed_message())
        } else if w == "-h"@ || w == "--help"@ || w == "help"@ {
            Ok(None)
        } else {
            Err(unknown_command_message(w))
        }
    }
}

/// The whole command line (without the program name).
pub open spec fn parse_cli(args: Seq<Seq<char>>, gui: bool) -> Result<ActionView, Seq<char>> {
    let s = command_start(args, 0);
    if s < args.len() && is_config_flag(args[s as int]) {
        Err(requires_message(args[s as int], "a path"@))
    } else {
        let config = if s > 0 {
            Some(args[s - 1])
        } else {
            None
        };
        match parse_command(args.skip(s as int), gui) {
            Ok(Some(c)) => Ok(ActionView::Run(config, c)),
            Ok(None) => Ok(ActionView::Help),
            Err(e) => Err(e),
        }
    }
}

fn message_of(parts: &Vec<char>) -> (r: CliError)
    ensures
        r.message@ == parts@,
{
    CliError { message: from_chars(parts) }
}

fn requires_error(flag: &Vec<char>, what: &str) -> (r: CliError)
    ensures
        r.message@ == requires_message(flag@, what@),
{
    let mut m: Vec<char> = Vec::new();
    append_vec(&mut m, flag);
    append_str(&mut m, " requires ");
    append_str(&mut m, what);
    assert(m@ =~= requires_message(flag@, what@));
    message_of(&m)
}

fn unknown_argument_error(command: &str, arg: &Vec<char>) -> (r: CliError)
    ensures
        r.message@ == unknown_argument_message(command@, arg@),
{
    let mut m: Vec<char> = Vec::new();
    append_str(&mut m, "unknown ");
    append_str(&mut m, command);
    append_str(&mut m, " argument `");
    append_vec(&mut m, arg);
    append_str(&mut m, "`");
    assert(m@ =~= unknown_argument_message(command@, arg@));
    message_of(&m)
}

fn some_string(v: &Vec<char>) -> (r: Option<String>)
    ensures
        opt_view(r) == Some(v@),
{
    Some(from_chars(v))
}

/// `configure-codex-app` options.
pub fn parse_configure_codex_app(args: &[String]) -> (r: Result<Command, CliError>)
    ensures
        match r {
            Ok(c) => scan_configure(strs(args@), 0, no_options()) == Ok::<ConfigureOptions, Seq<char>>(
                command_view(c)->ConfigureCodexApp_0,
            ) && command_view(c) is ConfigureCodexApp,
            Err(e) => scan_configure(strs(args@), 0, no_options()) == Err::<ConfigureOptions, Seq<char>>(e.message@),
        },
{
    let ghost a = strs(args@);
    let mut codex_home: Option<String> = None;
    let mut provider_name: Option<String> = None;
    let mut provider_base_url: Option<String> = None;
    let mut provider_key: Option<String> = None;
    let mut model: Option<String> = None;
    let mut j: usize = 0;
    while j < args.len()
        invariant
            a == strs(args@),
            j <= args@.len(),
            scan_configure(a, 0, no_options()) == scan_configure(
                a,
                j as nat,
                ConfigureOptions {
                    codex_home: opt_view(codex_home),
                    provider_name: opt_view(provider_name),
                    provider_base_url: opt_view(provider_base_url),
                    provider_key: opt_view(provider_key),
                    model: opt_view(model),
                },
            ),
        decreases args@.len() - j,
    {
        let flag = to_chars(args[j].as_str());
        assert(a[j as int] == flag@);
        let what: &str = if eq_str(&flag, "--codex-home") {
            "a path"
        } else if eq_str(&flag, "--provider-name") {
            "a name"
        } else if eq_str(&flag, "--provider-base-url") {
            "a URL"
        } else if eq_str(&flag, "--provider-key") {
            "a token"
        } else if eq_str(&flag, "--model") {
            "a model name"
        } else {
            return Err(unknown_argument_error("configure-codex-app", &flag));
        };
        assert(configure_flag_value(flag@) == Some(what@));
        if j + 1 >= args.len() {
            return Err(requires_error(&flag, what));
        }
        let value = to_chars(args[j + 1].as_str());
        assert(a[j + 1] == value@);
        if eq_str(&flag, "--codex-home") {
            codex_home = some_string(&value);
        } else if eq_str(&flag, "--provider-name") {
            provider_name = some_string(&value);
        } else if eq_str(&flag, "--provider-base-url") {
            provider_base_url = some_string(&value);
        } else if eq_str(&flag, "--provider-key") {
            provider_key = some_string(&value);
        } else {
            model = some_string(&value);
        }
        j += 2;
    }
    Ok(Command::ConfigureCodexApp { codex_home, provider_name, provider_base_url, provider_key, model })
}

/// `uninstall-codex-app` options.
pub fn parse_uninstall_codex_app(args: &[String]) -> (r: Result<Command, CliError>)
    ensures
        match r {
            Ok(c) => command_view(c) is UninstallCodexApp && scan_uninstall(strs(args@), 0, None) == Ok::<
                Option<Seq<char>>,
                Seq<char>,
            >(command_view(c)->UninstallCodexApp_0),
            Err(e) => scan_uninstall(strs(args@), 0, None) == Err::<Option<Seq<char>>, Seq<char>>(e.message@),
        },
{
    let ghost a = strs(args@);
    let mut codex_home: Option<String> = None;
    let mut j: usize = 0;
    while j < args.len()
        invariant
            a == strs(args@),
            j <= args@.len(),
            scan_uninstall(a, 0, None) == scan_uninstall(a, j as nat, opt_view(codex_home)),
        decreases args@.len() - j,
    {
        let flag = to_chars(args[j].as_str());
        assert(a[j as int] == flag@);
        if !eq_str(&flag, "--codex-home") {
            return Err(unknown_argument_error("uninstall-codex-app", &flag));
        }
        if j + 1 >= args.len() {
            return Err(requires_error(&flag, "a path"));
        }
        let value = to_chars(args[j + 1].as_str());
        assert(a[j + 1] == value@);
        codex_home = some_string(&value);
        j += 2;
    }
    Ok(Command::UninstallCodexApp { codex_home })
}

/// The command used when none is given.
pub fn default_command(gui: bool) -> (r: Command)
    ensures
        command_view(r) == default_command_view(gui),
{
    if gui {
        Command::Gui
    } else {
        Command::Daemon
    }
}

impl CliError {
    pub fn message(&self) -> (r: String)
        ensures
            r@ == self.message@,
    {
        self.message.clone()
    }
}

impl Cli {
    /// Parses the arguments after the program name; `gui` says whether this
    /// build has the GUI, which then is the default command.
    pub fn parse(args: &Vec<String>, gui: bool) -> (r: Result<CliAction, CliError>)
        ensures
            match r {
                Ok(a) => parse_cli(strs(args@), gui) == Ok::<ActionView, Seq<char>>(action_view(a)),
                Err(e) => parse_cli(strs(args@), gui) == Err::<ActionView, Seq<char>>(e.message@),
            },
    {
        let ghost a = strs(args@);
        let mut config_path: Option<String> = None;
        let mut i: usize = 0;
        while i + 1 < args.len() && is_config_word(&args[i])
            invariant
                a == strs(args@),
                i <= args@.len(),
                command_start(a, 0) == command_start(a, i as nat),
                i % 2 == 0,
                opt_view(config_path) == if i > 0 {
                    Some(a[i - 1])
                } else {
                    None::<Seq<char>>
                },
            decreases args@.len() - i,
        {
            config_path = Some(args[i + 1].clone());
            i += 2;
        }
        assert(command_start(a, i as nat) == i);
        if i < args.len() && is_config_word(&args[i]) {
            let flag = to_chars(args[i].as_str());
            return Err(requires_error(&flag, "a path"));
        }
        let ghost rest = a.skip(i as int);
        if i >= args.len() {
            assert(rest.len() == 0);
            return Ok(CliAction::Run(Cli { config_path, command: default_command(gui) }));
        }
        let w = to_chars(args[i].as_str());
        assert(rest[0] == w@);
        let tail = tail_strings(args, i + 1);
        assert(strs(tail@) =~= rest.drop_first());
        let command = if eq_str(&w, "gui") {
            Command::Gui
        } else if eq_str(&w, "daemon") || eq_str(&w, "run") {
            Command::Daemon
        } else if eq_str(&w, "on") {
            Command::On
        } else if eq_str(&w, "off") {
            Command::Off
        } else if eq_str(&w, "status") {
            Command::Status
        } else if eq_str(&w, "configure-codex-app") {
            match parse_configure_codex_app(&tail) {
                Ok(c) => c,
                Err(e) => return Err(e),
            }
        } else if eq_str(&w, "uninstall-codex-app") {
            match parse_uninstall_codex_app(&tail) {
                Ok(c) => c,
                Err(e) => return Err(e),
            }
        } else if eq_str(&w, "install-shim") || eq_str(&w, "uninstall-shim") || eq_str(&w, "shim") {
            let mut m: Vec<char> = Vec::new();
            append_str(
                &mut m,
                "CLI shim support has been removed. Use `codexhub configure-codex-app` and Codex App remote-control instead.",
            );
            return Err(message_of(&m));
        } else if eq_str(&w, "-h") || eq_str(&w, "--help") || eq_str(&w, "help") {
            return Ok(CliAction::Help);
        } else {
            let mut m: Vec<char> = Vec::new();
            append_str(&mut m, "unknown command `");
            append_vec(&mut m, &w);
            append_str(&mut m, "`. Run `codexhub help`.");
            assert(m@ =~= unknown_command_message(w@));
            return Err(message_of(&m));
        };
        Ok(CliAction::Run(Cli { config_path, command }))
    }
}

fn tail_strings(args: &Vec<String>, from: usize) -> (r: Vec<String>)
    requires
        from <= args@.len(),
    ensures
        strs(r@) == strs(args@).skip(from as int),
{
    let mut r: Vec<String> = Vec::new();
    let mut k: usize = from;
    while k < args.len()
        invariant
            from <= k <= args@.len(),
            strs(r@) == strs(args@).subrange(from as int, k as int),
        decreases args@.len() - k,
    {
        let c = args[k].clone();
        let ghost before = r@;
        r.push(c);
        assert(strs(r@) =~= strs(before).push(args@[k as int]@));
        assert(strs(args@).subrange(from as int, k + 1) =~= strs(args@).subrange(from as int, k as int).push(args@[k as int]@));
        k += 1;
    }
    assert(strs(args@).subrange(from as int, args@.len() as int) =~= strs(args@).skip(from as int));
    r
}

fn is_config_word(s: &String) -> (r: bool)
    ensures
        r == is_config_flag(s@),
{
    let v = to_chars(s.as_str());
    eq_str(&v, "--config") || eq_str(&v, "-c")
}


/// The result of a command line with one more `--config PATH` pair in
/// front: the same command, and that path unless a later pair names one.
pub open spec fn with_leading_config(r: Result<ActionView, Seq<char>>, path: Seq<char>) -> Result<ActionView, Seq<char>> {
    match r {
        Ok(ActionView::Run(None, c)) => Ok(ActionView::Run(Some(path), c)),
        _ => r,
    }
}

proof fn lemma_command_start_shift(args: Seq<Seq<char>>, path: Seq<char>, i: nat)
    requires
        i <= args.len(),
    ensures
        command_start(seq!["--config"@, path] + args, i + 2) == command_start(args, i) + 2,
    decreases args.len() - i,
{
    let x = seq!["--config"@, path] + args;
    if i + 1 < args.len() && is_config_flag(args[i as int]) {
        assert(x[i + 2int] == args[i as int]);
        lemma_command_start_shift(args, path, i + 2);
    } else {
        if i + 2 + 1 < x.len() {
            assert(x[i + 2int] == args[i as int]);
        }
    }
}

/// `--config PATH` in front of a command line changes nothing but the
/// configuration path, and a later `--config` still wins.
pub proof fn law_leading_config_is_transparent(args: Seq<Seq<char>>, path: Seq<char>, gui: bool)
    ensures
        parse_cli(seq!["--config"@, path] + args, gui) == with_leading_config(parse_cli(args, gui), path),
{
    reveal_strlit("--config");
    let x = seq!["--config"@, path] + args;
    assert(is_config_flag(x[0]));
    assert(command_start(x, 0) == command_start(x, 2));
    lemma_command_start_shift(args, path, 0);
    lemma_command_start_bound(args, 0);
    let s = command_start(args, 0);
    assert(command_start(x, 0) == s + 2);
    if s < args.len() {
        assert(x[s + 2int] == args[s as int]);
    }
    assert(x.skip(s + 2int) =~= args.skip(s as int));
    if s > 0 {
        assert(x[s + 2 - 1] == args[s - 1]);
    } else {
        assert(x[1] == path);
    }
}

proof fn lemma_command_start_bound(args: Seq<Seq<char>>, i: nat)
    requires
        i <= args.len(),
    ensures
        i <= command_start(args, i) <= args.len(),
    decreases args.len() - i,
{
    if i + 1 < args.len() && is_config_flag(args[i as int]) {
        lemma_command_start_bound(args, i + 2);
    }
}

} // verus!
