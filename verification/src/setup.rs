//! Where the configuration, layouts, themes and data live, and what the
//! setup commands do: which asset to print, which shell to write a script
//! for, and the report of `--check`.

use vstd::prelude::*;
use vstd::string::StringExecFns;
use crate::frame::chars_of;

verus! {

/// Where a user's configuration lives, below the home directory.
pub const CONFIG_LOCATION: &'static str = ".config/zellij";

/// The name of the configuration file.
pub const CONFIG_NAME: &'static str = "config.kdl";

/// The glyph that the status bar draws between its parts.
pub const ARROW_SEPARATOR: &'static str = "\u{e0b0}";

/// The configuration directory of the whole system.
pub const SYSTEM_DEFAULT_CONFIG_DIR: &'static str = "/etc/zellij";

/// The prefix under which the system's shared data is installed.
pub const SYSTEM_DEFAULT_DATA_DIR_PREFIX: &'static str = "/usr";

// ----- paths -----

/// A path with `part` appended: `part` itself if it is absolute, else
/// `part` after `base` and a separator, unless `base` is empty or already
/// ends with one.
pub open spec fn joined(base: Seq<char>, part: Seq<char>) -> Seq<char> {
    if part.len() > 0 && part[0] == '/' {
        part
    } else if base.len() == 0 || base.last() == '/' {
        base + part
    } else {
        base + seq!['/'] + part
    }
}

/// The path `base` with `part` appended (see `joined`).
pub fn join_path(base: &str, part: &str) -> (r: String)
    ensures
        r@ == joined(base@, part@),
{
    proof {
        reveal_strlit("/");
    }
    let part_chars = chars_of(part);
    if part_chars.len() > 0 && part_chars[0] == '/' {
        return String::from_str(part);
    }
    let base_chars = chars_of(base);
    let mut r = String::from_str(base);
    if base_chars.len() > 0 && base_chars[base_chars.len() - 1] != '/' {
        r.append("/");
    }
    r.append(part);
    r
}

/// The contents of an optional string.
pub open spec fn opt_str(o: Option<String>) -> Option<Seq<char>> {
    match o {
        Some(s) => Some(s@),
        None => None,
    }
}

/// `dir` with `part` appended, if there is a `dir`.
pub open spec fn joined_opt(dir: Option<Seq<char>>, part: Seq<char>) -> Option<Seq<char>> {
    match dir {
        Some(d) => Some(joined(d, part)),
        None => None,
    }
}

/// `a` if there is one, else `b`.
pub open spec fn or_else(a: Option<Seq<char>>, b: Option<Seq<char>>) -> Option<Seq<char>> {
    match a {
        Some(s) => Some(s),
        None => b,
    }
}

fn join_opt(dir: Option<String>, part: &str) -> (r: Option<String>)
    ensures
        opt_str(r) == joined_opt(opt_str(dir), part@),
{
    match dir {
        Some(d) => Some(join_path(d.as_str(), part)),
        None => None,
    }
}

/// The layout directory inside a configuration directory.
pub fn get_layout_dir(config_dir: Option<String>) -> (r: Option<String>)
    ensures
        opt_str(r) == joined_opt(opt_str(config_dir), "layouts"@),
{
    join_opt(config_dir, "layouts")
}

/// The theme directory inside a configuration directory.
pub fn get_theme_dir(config_dir: Option<String>) -> (r: Option<String>)
    ensures
        opt_str(r) == joined_opt(opt_str(config_dir), "themes"@),
{
    join_opt(config_dir, "themes")
}

// ----- the directories of the user and of the system -----

/// The base directories of the user, as directories-next finds them.
#[verifier::external_type_specification]
#[verifier::external_body]
pub struct ExBaseDirs(directories_next::BaseDirs);

/// The directories of a project, as directories-next finds them.
#[verifier::external_type_specification]
#[verifier::external_body]
pub struct ExProjectDirs(directories_next::ProjectDirs);

/// Calls `BaseDirs::new` of directories-next. Nothing is claimed of the
/// result: it depends on the environment.
#[verifier::external_body]
fn base_dirs() -> Option<directories_next::BaseDirs> {
    directories_next::BaseDirs::new()
}

/// Calls `BaseDirs::home_dir` of directories-next, as a string. Nothing is
/// claimed of the result: it was found in the environment.
#[verifier::external_body]
fn home_dir_of(dirs: &directories_next::BaseDirs) -> String {
    dirs.home_dir().to_string_lossy().into_owned()
}

/// The reverse domain under which the project's directories are named.
pub const PROJECT_QUALIFIER: &'static str = "org";

/// The organization under which the project's directories are named.
pub const PROJECT_ORGANIZATION: &'static str = "Zellij Contributors";

/// The application name under which the project's directories are named.
pub const PROJECT_APPLICATION: &'static str = "Zellij";

/// Calls `ProjectDirs::from` of directories-next, with the project's names
/// (the only ones the library asks for). Nothing is claimed of the result:
/// it depends on the environment.
#[verifier::external_body]
fn project_dirs_from(qualifier: &str, organization: &str, application: &str) -> Option<
    directories_next::ProjectDirs,
>
    requires
        qualifier@ == PROJECT_QUALIFIER@,
        organization@ == PROJECT_ORGANIZATION@,
        application@ == PROJECT_APPLICATION@,
{
    directories_next::ProjectDirs::from(qualifier, organization, application)
}

/// Calls `ProjectDirs::config_dir` of directories-next, as a string.
/// Nothing is claimed of the result: it was found in the environment.
#[verifier::external_body]
fn config_dir_of(dirs: &directories_next::ProjectDirs) -> String {
    dirs.config_dir().to_string_lossy().into_owned()
}

/// Calls `ProjectDirs::data_dir` of directories-next, as a string. Nothing
/// is claimed of the result: it was found in the environment.
#[verifier::external_body]
fn data_dir_of(dirs: &directories_next::ProjectDirs) -> String {
    dirs.data_dir().to_string_lossy().into_owned()
}

fn zellij_project_dirs() -> Option<directories_next::ProjectDirs> {
    project_dirs_from(PROJECT_QUALIFIER, PROJECT_ORGANIZATION, PROJECT_APPLICATION)
}

/// The configuration directory below a home directory, if there is one.
pub fn config_dir_under_home(home: Option<String>) -> (r: Option<String>)
    ensures
        opt_str(r) == joined_opt(opt_str(home), CONFIG_LOCATION@),
{
    join_opt(home, CONFIG_LOCATION)
}

/// The configuration directory below the user's home directory; `None`
/// where the environment has no home directory.
pub fn home_config_dir() -> (r: Option<String>)
    ensures
        r matches Some(d) ==> exists|home: Seq<char>| d@ == #[trigger] joined(home, CONFIG_LOCATION@),
{
    let home = match base_dirs() {
        Some(dirs) => Some(home_dir_of(&dirs)),
        None => None,
    };
    let ghost h = opt_str(home);
    let r = config_dir_under_home(home);
    proof {
        if r is Some {
            assert(r.unwrap()@ == joined(h.unwrap(), CONFIG_LOCATION@));
        }
    }
    r
}

/// The configuration directory that the platform's conventions give the
/// project; `None` where the environment has no home directory.
pub fn xdg_config_dir() -> Option<String> {
    match zellij_project_dirs() {
        Some(dirs) => Some(config_dir_of(&dirs)),
        None => None,
    }
}

/// The data directory that the platform's conventions give the project;
/// `None` where the environment has no home directory.
pub fn xdg_data_dir() -> Option<String> {
    match zellij_project_dirs() {
        Some(dirs) => Some(data_dir_of(&dirs)),
        None => None,
    }
}

/// The configuration directories to look in, in the order in which they
/// are tried: below the home directory, the platform's, the system's.
pub fn config_dir_candidates(home_config_dir: Option<String>, xdg_config_dir: Option<String>) -> (r: Vec<
    Option<String>,
>)
    ensures
        r@.len() == 3,
        opt_str(r@[0]) == opt_str(home_config_dir),
        opt_str(r@[1]) == opt_str(xdg_config_dir),
        opt_str(r@[2]) == Some(SYSTEM_DEFAULT_CONFIG_DIR@),
{
    let mut r: Vec<Option<String>> = Vec::new();
    r.push(home_config_dir);
    r.push(xdg_config_dir);
    r.push(Some(String::from_str(SYSTEM_DEFAULT_CONFIG_DIR)));
    r
}

/// The configuration directories to look in, in the order in which they
/// are tried (see `config_dir_candidates`).
pub fn default_config_dirs() -> (r: Vec<Option<String>>)
    ensures
        r@.len() == 3,
        r@[0] matches Some(d) ==> exists|home: Seq<char>| d@ == #[trigger] joined(home, CONFIG_LOCATION@),
        opt_str(r@[2]) == Some(SYSTEM_DEFAULT_CONFIG_DIR@),
{
    config_dir_candidates(home_config_dir(), xdg_config_dir())
}

/// The contents of the given optional strings.
pub open spec fn opt_strs(dirs: Seq<Option<String>>) -> Seq<Option<Seq<char>>> {
    dirs.map_values(|d: Option<String>| opt_str(d))
}

/// The first of the directories, from the `i`-th on, that is given and
/// exists.
pub open spec fn first_existing(dirs: Seq<Option<Seq<char>>>, exists: Seq<bool>, i: nat) -> Option<Seq<char>>
    decreases dirs.len() - i,
{
    if i >= dirs.len() {
        None
    } else if dirs[i as int] is Some && exists[i as int] {
        dirs[i as int]
    } else {
        first_existing(dirs, exists, i + 1)
    }
}

/// The first of the candidate configuration directories that is given and
/// exists; `exists[i]` tells whether `dirs[i]` exists.
pub fn find_default_config_dir(dirs: &Vec<Option<String>>, exists: &Vec<bool>) -> (r: Option<String>)
    requires
        dirs@.len() == exists@.len(),
    ensures
        opt_str(r) == first_existing(opt_strs(dirs@), exists@, 0),
{
    let ghost d = opt_strs(dirs@);
    let mut i: usize = 0;
    while i < dirs.len()
        invariant
            d == opt_strs(dirs@),
            dirs@.len() == exists@.len(),
            i <= dirs@.len(),
            first_existing(d, exists@, i as nat) == first_existing(d, exists@, 0),
        decreases dirs@.len() - i,
    {
        if exists[i] {
            match &dirs[i] {
                Some(dir) => {
                    return Some(dir.clone());
                },
                None => {},
            }
        }
        i = i + 1;
    }
    None
}

/// The data directory of the whole system.
pub fn system_data_dir() -> (r: String)
    ensures
        r@ == joined(SYSTEM_DEFAULT_DATA_DIR_PREFIX@, "share/zellij"@),
{
    join_path(SYSTEM_DEFAULT_DATA_DIR_PREFIX, "share/zellij")
}

/// The data directory to use: the platform's if it exists, else the
/// system's if that exists, else the platform's.
pub fn get_default_data_dir(xdg_data_dir: String, xdg_data_dir_exists: bool, system_data_dir_exists: bool) -> (r:
    String)
    ensures
        r@ == (if xdg_data_dir_exists || !system_data_dir_exists {
            xdg_data_dir@
        } else {
            joined(SYSTEM_DEFAULT_DATA_DIR_PREFIX@, "share/zellij"@)
        }),
{
    if xdg_data_dir_exists {
        xdg_data_dir
    } else if system_data_dir_exists {
        system_data_dir()
    } else {
        xdg_data_dir
    }
}

// ----- assets -----

/// The files that ship with the program and that setup commands print.
#[derive(Clone, Copy, Debug, PartialEq, Eq, Structural)]
pub enum Asset {
    DefaultConfig,
    DefaultLayout,
    StriderLayout,
    NoStatusLayout,
    CompactBarLayout,
    FishExtraCompletion,
    BashExtraCompletion,
    ZshExtraCompletion,
    BashAutoStartScript,
    FishAutoStartScript,
    ZshAutoStartScript,
}

/// Whether two strings hold the same characters.
fn str_is(s: &str, other: &str) -> (r: bool)
    ensures
        r == (s@ == other@),
{
    String::from_str(s) == String::from_str(other)
}

/// The default configuration is what `--dump-config` prints.
pub fn dump_default_config() -> (a: Asset)
    ensures
        a == Asset::DefaultConfig,
{
    Asset::DefaultConfig
}

/// The layout that ships under the given name.
pub open spec fn layout_asset(name: Seq<char>) -> Option<Asset> {
    if name == "strider"@ {
        Some(Asset::StriderLayout)
    } else if name == "default"@ {
        Some(Asset::DefaultLayout)
    } else if name == "compact"@ {
        Some(Asset::CompactBarLayout)
    } else if name == "disable-status"@ {
        Some(Asset::NoStatusLayout)
    } else {
        None
    }
}

/// The layout that `--dump-layout` prints for `layout`; an error naming the
/// layout if none ships under that name.
pub fn dump_specified_layout(layout: &str) -> (r: Result<Asset, String>)
    ensures
        match layout_asset(layout@) {
            Some(a) => r == Ok::<Asset, String>(a),
            None => r matches Err(e) && e@ == "Layout: "@ + layout@ + " not found"@,
        },
{
    if str_is(layout, "strider") {
        Ok(Asset::StriderLayout)
    } else if str_is(layout, "default") {
        Ok(Asset::DefaultLayout)
    } else if str_is(layout, "compact") {
        Ok(Asset::CompactBarLayout)
    } else if str_is(layout, "disable-status") {
        Ok(Asset::NoStatusLayout)
    } else {
        let mut message = String::from_str("Layout: ");
        message.append(layout);
        message.append(" not found");
        Err(message)
    }
}

// ----- shells -----

/// A shell for which completions and auto-start scripts can be written.
#[derive(Clone, Copy, Debug, PartialEq, Eq, Structural)]
pub enum Shell {
    Bash,
    Elvish,
    Fish,
    PowerShell,
    Zsh,
}

/// The shell with the given name, as clap_complete names them.
pub open spec fn shell_named(name: Seq<char>) -> Option<Shell> {
    if name == "bash"@ {
        Some(Shell::Bash)
    } else if name == "elvish"@ {
        Some(Shell::Elvish)
    } else if name == "fish"@ {
        Some(Shell::Fish)
    } else if name == "powershell"@ {
        Some(Shell::PowerShell)
    } else if name == "zsh"@ {
        Some(Shell::Zsh)
    } else {
        None
    }
}

/// Calls `<clap_complete::Shell as FromStr>::from_str`. Claims what its
/// source shows: each of the five shells is found by its exact name
/// ("bash", "elvish", "fish", "powershell", "zsh"), and every other text
/// is refused.
#[verifier::external_body]
fn parse_shell(name: &str) -> (r: Option<Shell>)
    ensures
        r == shell_named(name@),
{
    match name.parse::<clap_complete::Shell>() {
        Ok(clap_complete::Shell::Bash) => Some(Shell::Bash),
        Ok(clap_complete::Shell::Elvish) => Some(Shell::Elvish),
        Ok(clap_complete::Shell::Fish) => Some(Shell::Fish),
        Ok(clap_complete::Shell::PowerShell) => Some(Shell::PowerShell),
        Ok(clap_complete::Shell::Zsh) => Some(Shell::Zsh),
        _ => None,
    }
}

/// The lowercase form of a text, as `str::to_lowercase` gives it.
pub uninterp spec fn lowercased(s: Seq<char>) -> Seq<char>;

/// A character in lowercase, for ASCII letters.
pub open spec fn ascii_lower(c: char) -> char {
    if 'A' <= c && c <= 'Z' {
        ((c as int) + 32) as char
    } else {
        c
    }
}

/// Calls `str::to_lowercase`. Claims that the result is the named
/// lowercase form of `s`, and that a text of ASCII characters is lowered
/// letter by letter, 'A' to 'Z' becoming 'a' to 'z' and everything else
/// staying as it is, as Unicode's case mapping gives for ASCII.
#[verifier::external_body]
fn to_lowercase(s: &str) -> (r: String)
    ensures
        r@ == lowercased(s@),
        (forall|i: int| 0 <= i < s@.len() ==> (#[trigger] s@[i] as int) < 128) ==> r@ == s@.map_values(
            |c: char| ascii_lower(c),
        ),
{
    s.to_lowercase()
}

/// The completions that are added after the generated ones for a shell.
pub open spec fn completion_extra(shell: Shell) -> Option<Asset> {
    match shell {
        Shell::Bash => Some(Asset::BashExtraCompletion),
        Shell::Fish => Some(Asset::FishExtraCompletion),
        Shell::Zsh => Some(Asset::ZshExtraCompletion),
        _ => None,
    }
}

/// The auto-start script of a shell.
pub open spec fn auto_start_script(shell: Shell) -> Option<Asset> {
    match shell {
        Shell::Bash => Some(Asset::BashAutoStartScript),
        Shell::Fish => Some(Asset::FishAutoStartScript),
        Shell::Zsh => Some(Asset::ZshAutoStartScript),
        _ => None,
    }
}

/// The shell named `shell` in any case; an error naming it otherwise.
fn shell_for(shell: &str) -> (r: Result<Shell, String>)
    ensures
        match shell_named(lowercased(shell@)) {
            Some(s) => r == Ok::<Shell, String>(s),
            None => r matches Err(e) && e@ == "Unsupported shell: "@ + shell@,
        },
{
    let lower = to_lowercase(shell);
    match parse_shell(lower.as_str()) {
        Some(s) => Ok(s),
        None => {
            let mut message = String::from_str("Unsupported shell: ");
            message.append(shell);
            Err(message)
        },
    }
}

/// The setup commands, as given on the command line.
#[derive(Clone, Debug)]
pub struct Setup {
    /// Dump the default configuration file to stdout.
    pub dump_config: bool,
    /// Disables loading of the configuration file at the default location,
    /// loads the defaults that ship with the program.
    pub clean: bool,
    /// Checks the configuration and displays the directories in use.
    pub check: bool,
    /// Dump the specified layout file to stdout.
    pub dump_layout: Option<String>,
    /// Generates completion for the specified shell.
    pub generate_completion: Option<String>,
    /// Generates an auto-start script for the specified shell.
    pub generate_auto_start: Option<String>,
}

impl Default for Setup {
    /// No setup command.
    fn default() -> (s: Setup)
        ensures
            !s.dump_config && !s.clean && !s.check,
            s.dump_layout is None && s.generate_completion is None && s.generate_auto_start is None,
    {
        Setup {
            dump_config: false,
            clean: false,
            check: false,
            dump_layout: None,
            generate_completion: None,
            generate_auto_start: None,
        }
    }
}

/// Whether `action` is what `setup` asks for: the first of `clean` (which
/// only changes how the configuration is loaded, so nothing is done),
/// `dump_config`, `generate_completion`, `generate_auto_start` and
/// `dump_layout` that is given, or nothing.
pub open spec fn is_action_of(setup: Setup, action: SetupAction) -> bool {
    if setup.clean {
        action is Proceed
    } else if setup.dump_config {
        action is DumpConfig
    } else if setup.generate_completion is Some {
        action matches SetupAction::GenerateCompletion(s) && s@ == setup.generate_completion.unwrap()@
    } else if setup.generate_auto_start is Some {
        action matches SetupAction::GenerateAutoStart(s) && s@ == setup.generate_auto_start.unwrap()@
    } else if setup.dump_layout is Some {
        action matches SetupAction::DumpLayout(s) && s@ == setup.dump_layout.unwrap()@
    } else {
        action is Proceed
    }
}

/// What a setup command asks to be done before anything else.
#[derive(Clone, Debug)]
pub enum SetupAction {
    /// Nothing: go on.
    Proceed,
    /// Print the default configuration and exit.
    DumpConfig,
    /// Print the completions of the named shell and exit.
    GenerateCompletion(String),
    /// Print the auto-start script of the named shell and exit.
    GenerateAutoStart(String),
    /// Print the named layout and exit.
    DumpLayout(String),
}

impl Setup {
    /// The setup command to carry out (see `is_action_of`).
    pub fn from_cli(&self) -> (r: SetupAction)
        ensures
            is_action_of(*self, r),
    {
        if self.clean {
            return SetupAction::Proceed;
        }
        if self.dump_config {
            return SetupAction::DumpConfig;
        }
        if let Some(shell) = &self.generate_completion {
            return SetupAction::GenerateCompletion(shell.clone());
        }
        if let Some(shell) = &self.generate_auto_start {
            return SetupAction::GenerateAutoStart(shell.clone());
        }
        if let Some(layout) = &self.dump_layout {
            return SetupAction::DumpLayout(layout.clone());
        }
        SetupAction::Proceed
    }

    /// Whether the merged configuration is to be checked (and the program
    /// to exit after the report).
    pub fn from_cli_with_options(&self) -> (r: bool)
        ensures
            r == self.check,
    {
        self.check
    }

    /// The shell whose completions to write, and what is added after the
    /// generated ones; an error naming the shell if it is not supported.
    /// The name is taken in any case.
    pub fn generate_completion(shell: &str) -> (r: Result<(Shell, Option<Asset>), String>)
        ensures
            match shell_named(lowercased(shell@)) {
                Some(s) => r == Ok::<(Shell, Option<Asset>), String>((s, completion_extra(s))),
                None => r matches Err(e) && e@ == "Unsupported shell: "@ + shell@,
            },
    {
        match shell_for(shell) {
            Ok(s) => {
                let extra = match s {
                    Shell::Bash => Some(Asset::BashExtraCompletion),
                    Shell::Fish => Some(Asset::FishExtraCompletion),
                    Shell::Zsh => Some(Asset::ZshExtraCompletion),
                    _ => None,
                };
                Ok((s, extra))
            },
            Err(e) => Err(e),
        }
    }

    /// The auto-start script of the named shell, if it has one; an error
    /// naming the shell if it is not supported. The name is taken in any
    /// case.
    pub fn generate_auto_start(shell: &str) -> (r: Result<Option<Asset>, String>)
        ensures
            match shell_named(lowercased(shell@)) {
                Some(s) => r == Ok::<Option<Asset>, String>(auto_start_script(s)),
                None => r matches Err(e) && e@ == "Unsupported shell: "@ + shell@,
            },
    {
        match shell_for(shell) {
            Ok(s) => Ok(
                match s {
                    Shell::Bash => Some(Asset::BashAutoStartScript),
                    Shell::Fish => Some(Asset::FishAutoStartScript),
                    Shell::Zsh => Some(Asset::ZshAutoStartScript),
                    _ => None,
                },
            ),
            Err(e) => Err(e),
        }
    }
}

// ----- command line and options -----

/// The options that decide where layouts and themes are looked for and
/// which layout is loaded.
#[derive(Clone, Debug)]
pub struct Options {
    pub layout_dir: Option<String>,
    pub theme_dir: Option<String>,
    pub default_layout: Option<String>,
}

impl Options {
    /// These options, each overridden by `other`'s where `other` gives it.
    pub fn merge(&self, other: Options) -> (r: Options)
        ensures
            opt_str(r.layout_dir) == or_else(opt_str(other.layout_dir), opt_str(self.layout_dir)),
            opt_str(r.theme_dir) == or_else(opt_str(other.theme_dir), opt_str(self.theme_dir)),
            opt_str(r.default_layout) == or_else(opt_str(other.default_layout), opt_str(self.default_layout)),
    {
        Options {
            layout_dir: first_of(other.layout_dir, &self.layout_dir),
            theme_dir: first_of(other.theme_dir, &self.theme_dir),
            default_layout: first_of(other.default_layout, &self.default_layout),
        }
    }
}

/// `a` if there is one, else a copy of `b`.
fn first_of(a: Option<String>, b: &Option<String>) -> (r: Option<String>)
    ensures
        opt_str(r) == or_else(opt_str(a), opt_str(*b)),
{
    match a {
        Some(s) => Some(s),
        None => match b {
            Some(s) => Some(s.clone()),
            None => None,
        },
    }
}

/// The subcommand given on the command line, as far as setup reads it.
#[derive(Clone, Debug)]
pub enum Command {
    /// Options that override those of the configuration.
    Options(Options),
    /// A setup command.
    Setup(Setup),
    /// Any other subcommand.
    Sessions,
}

/// The command-line arguments that setup reads.
#[derive(Clone, Debug)]
pub struct CliArgs {
    /// The configuration file to load.
    pub config: Option<String>,
    /// The configuration directory to use.
    pub config_dir: Option<String>,
    /// The data directory to use.
    pub data_dir: Option<String>,
    /// The layout to load.
    pub layout: Option<String>,
    pub command: Option<Command>,
}

impl CliArgs {
    /// Whether the configuration is to be left at its defaults: the setup
    /// command asks for `clean`.
    pub fn should_clean_config(&self) -> (r: bool)
        ensures
            r == (self.command matches Some(Command::Setup(s)) && s.clean),
    {
        match &self.command {
            Some(Command::Setup(setup)) => setup.clean,
            _ => false,
        }
    }

    /// The options given on the command line, if the subcommand gives
    /// them.
    pub fn cli_config_options(&self) -> (r: Option<Options>)
        ensures
            match self.command {
                Some(Command::Options(o)) => r matches Some(c) && opt_str(c.layout_dir) == opt_str(o.layout_dir)
                    && opt_str(c.theme_dir) == opt_str(o.theme_dir) && opt_str(c.default_layout) == opt_str(
                    o.default_layout,
                ),
                _ => r is None,
            },
    {
        match &self.command {
            Some(Command::Options(options)) => Some(
                Options {
                    layout_dir: copy_opt(&options.layout_dir),
                    theme_dir: copy_opt(&options.theme_dir),
                    default_layout: copy_opt(&options.default_layout),
                },
            ),
            _ => None,
        }
    }

    /// The configuration directory to use: the one given, else the first
    /// default one that exists (`found`).
    pub fn chosen_config_dir(&self, found: Option<String>) -> (r: Option<String>)
        ensures
            opt_str(r) == or_else(opt_str(self.config_dir), opt_str(found)),
    {
        match &self.config_dir {
            Some(dir) => Some(dir.clone()),
            None => found,
        }
    }
}

impl Setup {
    /// The setup command of the command line, if it gives one, to carry out
    /// first (see `from_cli`).
    pub fn handle_setup_commands(cli_args: &CliArgs) -> (r: SetupAction)
        ensures
            match cli_args.command {
                Some(Command::Setup(s)) => is_action_of(s, r),
                _ => r is Proceed,
            },
    {
        match &cli_args.command {
            Some(Command::Setup(setup)) => setup.from_cli(),
            _ => SetupAction::Proceed,
        }
    }
}

// ----- where layouts and themes come from -----

/// An option of the command line's options, if it gives options.
pub open spec fn cli_option(cli_config_options: Option<Options>, field: spec_fn(Options) -> Option<String>) -> Option<
    Seq<char>,
> {
    match cli_config_options {
        Some(o) => opt_str(field(o)),
        None => None,
    }
}

/// The layout directory to use: the command line's options', else the
/// configuration's, else the one inside the configuration directory (the
/// one given, else the first default one that exists, `found`).
pub open spec fn chosen_layout_dir(
    cli_config_options: Option<Options>,
    config_options: Options,
    cli_args: CliArgs,
    found: Option<Seq<char>>,
) -> Option<Seq<char>> {
    or_else(
        cli_option(cli_config_options, |o: Options| o.layout_dir),
        or_else(
            opt_str(config_options.layout_dir),
            joined_opt(or_else(opt_str(cli_args.config_dir), found), "layouts"@),
        ),
    )
}

/// The layout to load: the one given on the command line, else the
/// default layout of the command line's options, else the
/// configuration's.
pub open spec fn chosen_layout(cli_config_options: Option<Options>, config_options: Options, cli_args: CliArgs) -> Option<
    Seq<char>,
> {
    or_else(
        opt_str(cli_args.layout),
        or_else(
            cli_option(cli_config_options, |o: Options| o.default_layout),
            opt_str(config_options.default_layout),
        ),
    )
}

/// The theme directory to load themes from: the options', else the one
/// inside the configuration directory (the one given, else the first
/// default one that exists, `found`).
pub open spec fn chosen_theme_dir(config_options: Options, cli_args: CliArgs, found: Option<Seq<char>>) -> Option<
    Seq<char>,
> {
    or_else(
        opt_str(config_options.theme_dir),
        joined_opt(or_else(opt_str(cli_args.config_dir), found), "themes"@),
    )
}

fn copy_opt(o: &Option<String>) -> (r: Option<String>)
    ensures
        opt_str(r) == opt_str(*o),
{
    match o {
        Some(s) => Some(s.clone()),
        None => None,
    }
}

/// The extension of the last part of a path, as `Path::extension` gives
/// it.
pub uninterp spec fn path_extension(path: Seq<char>) -> Option<Seq<char>>;

/// Calls `std::path::Path::extension` on `path`, as a string. Claims only
/// that the result is the named extension of the path.
#[verifier::external_body]
fn extension_of(path: &str) -> (r: Option<String>)
    ensures
        opt_str(r) == path_extension(path@),
{
    std::path::Path::new(path).extension().map(|e| e.to_string_lossy().into_owned())
}

/// Whether a file in the theme directory holds themes: its extension is
/// `kdl`.
pub fn is_theme_file(path: &str) -> (r: bool)
    ensures
        r == (path_extension(path@) == Some("kdl"@)),
{
    match extension_of(path) {
        Some(e) => str_is(e.as_str(), "kdl"),
        None => false,
    }
}

impl Setup {
    /// Where layouts are looked for and which layout is loaded, the
    /// command line taking precedence over its options, and those over the
    /// configuration's (see `chosen_layout_dir` and `chosen_layout`);
    /// `found_config_dir` is the first default configuration directory
    /// that exists.
    pub fn layout_dir_and_choice(
        cli_config_options: Option<&Options>,
        config_options: &Options,
        cli_args: &CliArgs,
        found_config_dir: Option<String>,
    ) -> (r: (Option<String>, Option<String>))
        ensures
            opt_str(r.0) == chosen_layout_dir(
                match cli_config_options {
                    Some(o) => Some(*o),
                    None => None,
                },
                *config_options,
                *cli_args,
                opt_str(found_config_dir),
            ),
            opt_str(r.1) == chosen_layout(
                match cli_config_options {
                    Some(o) => Some(*o),
                    None => None,
                },
                *config_options,
                *cli_args,
            ),
    {
        let cli_layout_dir = match cli_config_options {
            Some(o) => copy_opt(&o.layout_dir),
            None => None,
        };
        let cli_default_layout = match cli_config_options {
            Some(o) => copy_opt(&o.default_layout),
            None => None,
        };
        let layout_dir = first_of(
            cli_layout_dir,
            &first_of(copy_opt(&config_options.layout_dir), &get_layout_dir(cli_args.chosen_config_dir(found_config_dir))),
        );
        let chosen_layout = first_of(
            copy_opt(&cli_args.layout),
            &first_of(cli_default_layout, &config_options.default_layout),
        );
        (layout_dir, chosen_layout)
    }

    /// The directory to load themes from (see `chosen_theme_dir`);
    /// `found_config_dir` is the first default configuration directory
    /// that exists.
    pub fn theme_dir(config_options: &Options, cli_args: &CliArgs, found_config_dir: Option<String>) -> (r: Option<
        String,
    >)
        ensures
            opt_str(r) == chosen_theme_dir(*config_options, *cli_args, opt_str(found_config_dir)),
    {
        first_of(copy_opt(&config_options.theme_dir), &get_theme_dir(cli_args.chosen_config_dir(found_config_dir)))
    }
}

// ----- the report of `--check` -----

/// How `Debug` shows a text: between double quotes, with some characters
/// escaped.
pub uninterp spec fn debug_str(s: Seq<char>) -> Seq<char>;

/// How `Debug` shows a path: between double quotes, with some characters
/// escaped.
pub uninterp spec fn path_debug_str(s: Seq<char>) -> Seq<char>;

/// Printable ASCII other than the quotes and the backslash.
pub open spec fn plain_text(s: Seq<char>) -> bool {
    forall|i: int|
        0 <= i < s.len() ==> ' ' <= #[trigger] s[i] && s[i] <= '~' && s[i] != '"' && s[i] != '\\' && s[i]
            != '\''
}

/// Formats `s` with the `Debug` formatting of `str` (`format!("{:?}", s)`).
/// Claims that the result is the named debug form of `s`, and that a text
/// of printable ASCII characters other than quotes and the backslash is
/// shown as it is between double quotes, as `str`'s `Debug` leaves such
/// characters unescaped.
#[verifier::external_body]
fn debug_quoted(s: &str) -> (r: String)
    ensures
        r@ == debug_str(s@),
        plain_text(s@) ==> r@ == seq!['"'] + s@ + seq!['"'],
{
    format!("{:?}", s)
}

/// The contents of the given strings.
pub open spec fn strs(v: Seq<String>) -> Seq<Seq<char>> {
    v.map_values(|s: String| s@)
}

/// The debug forms of the texts, separated by a comma and a blank.
pub open spec fn debug_items(items: Seq<Seq<char>>) -> Seq<char>
    decreases items.len(),
{
    if items.len() == 0 {
        seq![]
    } else if items.len() == 1 {
        debug_str(items[0])
    } else {
        debug_items(items.drop_last()) + ", "@ + debug_str(items.last())
    }
}

/// Formats the list with the `Debug` formatting of a slice of texts
/// (`format!("{:?}", items)`). Claims what `Formatter::debug_list` writes:
/// the debug form of each text, separated by a comma and a blank, between
/// square brackets.
#[verifier::external_body]
fn debug_list(items: &Vec<String>) -> (r: String)
    ensures
        r@ == "["@ + debug_items(strs(items@)) + "]"@,
{
    format!("{:?}", items)
}

/// Formats `s` as a path, with the `Debug` formatting of `std::path::Path`
/// (`format!("{:?}", Path::new(s))`). Claims that the result is the named
/// debug form of the path, and that a path of printable ASCII characters
/// other than quotes and the backslash is shown as it is between double
/// quotes, as `char::escape_debug`, which that formatting applies, leaves
/// such characters unescaped.
#[verifier::external_body]
fn debug_path(s: &str) -> (r: String)
    ensures
        r@ == path_debug_str(s@),
        plain_text(s@) ==> r@ == seq!['"'] + s@ + seq!['"'],
{
    format!("{:?}", std::path::Path::new(s))
}

/// The directories that are given, in order.
pub open spec fn given(dirs: Seq<Option<Seq<char>>>) -> Seq<Seq<char>>
    decreases dirs.len(),
{
    if dirs.len() == 0 {
        seq![]
    } else {
        match dirs.last() {
            Some(d) => given(dirs.drop_last()).push(d),
            None => given(dirs.drop_last()),
        }
    }
}

/// Whether two paths are equal as `std::path::Path` compares them.
pub uninterp spec fn same_path(a: Seq<char>, b: Seq<char>) -> bool;

/// Compares two paths with `==` of `std::path::Path`, which compares them
/// component by component. Claims that the result is the named comparison,
/// and that a path is equal to itself.
#[verifier::external_body]
fn paths_equal(a: &str, b: &str) -> (r: bool)
    ensures
        r == same_path(a@, b@),
        a@ == b@ ==> r,
{
    std::path::Path::new(a) == std::path::Path::new(b)
}

/// The list without repeats, as `Vec::dedup` leaves it: each path is
/// dropped if it is the same path as the last one kept.
pub open spec fn dedup(s: Seq<Seq<char>>) -> Seq<Seq<char>>
    decreases s.len(),
{
    if s.len() == 0 {
        s
    } else {
        let kept = dedup(s.drop_last());
        if kept.len() > 0 && same_path(s.last(), kept.last()) {
            kept
        } else {
            kept.push(s.last())
        }
    }
}

/// A line for each directory, indented by a blank.
pub open spec fn dir_lines(dirs: Seq<Seq<char>>) -> Seq<char>
    decreases dirs.len(),
{
    if dirs.len() == 0 {
        seq![]
    } else {
        dir_lines(dirs.drop_last()) + " "@ + path_debug_str(dirs.last()) + "\n"@
    }
}

/// The start of a terminal hyperlink.
pub const HYPERLINK_START: &'static str = "\u{1b}]8;;";

/// What separates a terminal hyperlink's target from its text.
pub const HYPERLINK_MID: &'static str = "\u{1b}\\";

/// The end of a terminal hyperlink.
pub const HYPERLINK_END: &'static str = "\u{1b}]8;;\u{1b}\\";

/// The documentation page on fonts that cannot show the status bar.
pub const COMPATIBILITY_URL: &'static str =
    "https://zellij.dev/documentation/compatibility.html#the-status-bar-fonts-dont-render-correctly";

/// A terminal hyperlink to `target` that reads `text`.
pub open spec fn hyperlink(target: Seq<char>, text: Seq<char>) -> Seq<char> {
    HYPERLINK_START@ + target + HYPERLINK_MID@ + text + HYPERLINK_END@
}

/// What the caller of `check_defaults_config` found in the system.
#[derive(Clone, Debug)]
pub struct CheckEnvironment {
    /// The program's version.
    pub version: String,
    /// The data directory to use when none is given (see
    /// `get_default_data_dir`).
    pub default_data_dir: String,
    /// The first default configuration directory that exists (see
    /// `find_default_config_dir`).
    pub default_config_dir: Option<String>,
    /// The default configuration directories (see `default_config_dirs`).
    pub default_config_dirs: Vec<Option<String>>,
    /// What loading the configuration file (see `config_file`) reported:
    /// nothing if it is well defined.
    pub config_file_error: Option<String>,
    /// The value of `$EDITOR`, if it is set.
    pub editor: Option<String>,
    /// The value of `$VISUAL`, if it is set.
    pub visual: Option<String>,
    /// The features the program was built with.
    pub features: Vec<String>,
}

/// The configuration directory that the report shows.
pub open spec fn report_config_dir(opts: CliArgs, env: CheckEnvironment) -> Option<Seq<char>> {
    or_else(opt_str(opts.config_dir), opt_str(env.default_config_dir))
}

/// The configuration file that the report shows: the one given, else the
/// one in the configuration directory.
pub open spec fn report_config_file(opts: CliArgs, env: CheckEnvironment) -> Option<Seq<char>> {
    or_else(opt_str(opts.config), joined_opt(report_config_dir(opts, env), CONFIG_NAME@))
}

/// The data directory that the report shows: the one given, else the
/// default one.
pub open spec fn report_data_dir(opts: CliArgs, env: CheckEnvironment) -> Seq<char> {
    match opts.data_dir {
        Some(d) => d@,
        None => env.default_data_dir@,
    }
}

/// The editor that the report shows.
pub open spec fn report_editor(env: CheckEnvironment) -> Seq<char> {
    match env.editor {
        Some(e) => e@,
        None => match env.visual {
            Some(v) => v@,
            None => "Not set, checked $EDITOR and $VISUAL"@,
        },
    }
}

/// The part of the report on the configuration directory.
pub open spec fn config_dir_section(opts: CliArgs, env: CheckEnvironment) -> Seq<char> {
    match report_config_dir(opts, env) {
        Some(d) => "[CONFIG DIR]: "@ + path_debug_str(d) + "\n"@,
        None => "[CONFIG DIR]: Not Found\n"@
            + " On your system zellij looks in the following config directories by default:\n"@
            + dir_lines(dedup(given(opt_strs(env.default_config_dirs@)))),
    }
}

/// The part of the report on the configuration file.
pub open spec fn config_file_section(opts: CliArgs, env: CheckEnvironment) -> Seq<char> {
    match report_config_file(opts, env) {
        Some(f) => "[CONFIG FILE]: "@ + path_debug_str(f) + "\n"@ + match env.config_file_error {
            None => "[CONFIG FILE]: Well defined.\n"@,
            Some(e) => "[CONFIG ERROR]: "@ + e@ + "\n"@,
        },
        None => "[CONFIG FILE]: Not Found\n"@ + " By default zellij looks for a file called ["@ + CONFIG_NAME@
            + "] in the configuration directory\n"@,
    }
}

/// The part of the report on the data, plugin, layout and system data
/// directories.
pub open spec fn dirs_section(opts: CliArgs, config_options: Options, env: CheckEnvironment) -> Seq<char> {
    let data_dir = report_data_dir(opts, env);
    "[DATA DIR]: "@ + path_debug_str(data_dir) + "\n"@ + "[PLUGIN DIR]: "@ + path_debug_str(joined(data_dir, "plugins"@))
        + "\n"@ + match or_else(opt_str(config_options.layout_dir), joined_opt(report_config_dir(opts, env), "layouts"@)) {
        Some(l) => "[LAYOUT DIR]: "@ + path_debug_str(l) + "\n"@,
        None => "[LAYOUT DIR]: Not Found\n"@,
    } + "[SYSTEM DATA DIR]: "@ + path_debug_str(joined(SYSTEM_DEFAULT_DATA_DIR_PREFIX@, "share/zellij"@)) + "\n"@
}

/// The part of the report on fonts and the mouse.
pub open spec fn terminal_section() -> Seq<char> {
    "[ARROW SEPARATOR]: "@ + ARROW_SEPARATOR@ + "\n"@ + " Is the [ARROW_SEPARATOR] displayed correctly?\n"@
        + " If not you may want to either start zellij with a compatible mode: 'zellij options --simplified-ui true'\n"@
        + " Or check the font that is in use:\n "@ + hyperlink(COMPATIBILITY_URL@, COMPATIBILITY_URL@) + "\n"@
        + "[MOUSE INTERACTION]: \n"@ + " Can be temporarily disabled through pressing the [SHIFT] key.\n"@
        + " If that doesn't fix any issues consider to disable the mouse handling of zellij: 'zellij options --disable-mouse-mode'\n"@
}

/// The report of `--check`: the version, the directories and files in use
/// and whether the configuration is well defined, hints on the terminal,
/// the editor, the features and where the documentation is.
pub open spec fn defaults_report(opts: CliArgs, config_options: Options, env: CheckEnvironment) -> Seq<char> {
    "[Version]: "@ + debug_str(env.version@) + "\n"@ + config_dir_section(opts, env) + config_file_section(opts, env)
        + dirs_section(opts, config_options, env) + terminal_section() + "[DEFAULT EDITOR]: "@ + report_editor(env)
        + "\n"@ + "[FEATURES]: "@ + "["@ + debug_items(strs(env.features@)) + "]"@ + "\n"@ + "[DOCUMENTATION]: "@ + hyperlink(
        "https://www.zellij.dev/documentation/"@,
        "zellij.dev/documentation"@,
    ) + "\n"@
}

/// The directories that are given, in order.
fn given_dirs(dirs: &Vec<Option<String>>) -> (r: Vec<String>)
    ensures
        strs(r@) == given(opt_strs(dirs@)),
{
    let ghost d = opt_strs(dirs@);
    let mut r: Vec<String> = Vec::new();
    let mut i: usize = 0;
    while i < dirs.len()
        invariant
            d == opt_strs(dirs@),
            i <= dirs@.len(),
            strs(r@) == given(d.take(i as int)),
        decreases dirs@.len() - i,
    {
        proof {
            assert(d.take(i + 1).drop_last() =~= d.take(i as int));
        }
        match &dirs[i] {
            Some(dir) => {
                r.push(dir.clone());
                proof {
                    assert(strs(r@) =~= strs(r@.drop_last()).push(dir@));
                }
            },
            None => {},
        }
        i = i + 1;
    }
    proof {
        assert(d.take(dirs@.len() as int) =~= d);
    }
    r
}

/// The directories without repeats (see `dedup`).
fn dedup_dirs(v: &Vec<String>) -> (r: Vec<String>)
    ensures
        strs(r@) == dedup(strs(v@)),
{
    let ghost s = strs(v@);
    let mut r: Vec<String> = Vec::new();
    let mut i: usize = 0;
    while i < v.len()
        invariant
            s == strs(v@),
            i <= v@.len(),
            strs(r@) == dedup(s.take(i as int)),
        decreases v@.len() - i,
    {
        let ghost t = s.take(i + 1);
        proof {
            assert(t.drop_last() =~= s.take(i as int));
            assert(t.last() == v@[i as int]@);
        }
        let keep = if r.len() == 0 {
            true
        } else {
            !paths_equal(v[i].as_str(), r[r.len() - 1].as_str())
        };
        if keep {
            r.push(v[i].clone());
            proof {
                assert(strs(r@) =~= strs(r@.drop_last()).push(v@[i as int]@));
            }
        }
        i = i + 1;
    }
    proof {
        assert(s.take(v@.len() as int) =~= s);
    }
    r
}

/// Appends a line for each directory, indented by a blank.
fn append_dir_lines(message: &mut String, dirs: &Vec<String>)
    ensures
        final(message)@ == old(message)@ + dir_lines(strs(dirs@)),
{
    let ghost start = message@;
    let ghost s = strs(dirs@);
    let mut i: usize = 0;
    proof {
        assert(start + dir_lines(s.take(0)) =~= start);
    }
    while i < dirs.len()
        invariant
            s == strs(dirs@),
            i <= dirs@.len(),
            message@ == start + dir_lines(s.take(i as int)),
        decreases dirs@.len() - i,
    {
        let ghost before = message@;
        message.append(" ");
        message.append(debug_path(dirs[i].as_str()).as_str());
        message.append("\n");
        proof {
            let t = s.take(i + 1);
            assert(t.drop_last() =~= s.take(i as int));
            assert(t.last() == dirs@[i as int]@);
            assert(message@ =~= start + dir_lines(t));
        }
        i = i + 1;
    }
    proof {
        assert(s.take(dirs@.len() as int) =~= s);
    }
}

impl Setup {
    /// Appends the part of the report on the configuration directory.
    fn report_config_dir_section(message: &mut String, config_dir: &Option<String>, env: &CheckEnvironment)
        ensures
            final(message)@ == old(message)@ + match opt_str(*config_dir) {
                Some(d) => "[CONFIG DIR]: "@ + path_debug_str(d) + "\n"@,
                None => "[CONFIG DIR]: Not Found\n"@
                    + " On your system zellij looks in the following config directories by default:\n"@
                    + dir_lines(dedup(given(opt_strs(env.default_config_dirs@)))),
            },
    {
        let ghost start = message@;
        match config_dir {
            Some(dir) => {
                message.append("[CONFIG DIR]: ");
                message.append(debug_path(dir.as_str()).as_str());
                message.append("\n");
                proof {
                    assert(message@ =~= start + ("[CONFIG DIR]: "@ + path_debug_str(dir@) + "\n"@));
                }
            },
            None => {
                message.append("[CONFIG DIR]: Not Found\n");
                message.append(
                    " On your system zellij looks in the following config directories by default:\n",
                );
                let dirs = dedup_dirs(&given_dirs(&env.default_config_dirs));
                append_dir_lines(message, &dirs);
                proof {
                    assert(message@ =~= start + ("[CONFIG DIR]: Not Found\n"@
                        + " On your system zellij looks in the following config directories by default:\n"@
                        + dir_lines(dedup(given(opt_strs(env.default_config_dirs@))))));
                }
            },
        }
    }

    /// Appends the part of the report on the configuration file.
    fn report_config_file_section(message: &mut String, config_file: &Option<String>, env: &CheckEnvironment)
        ensures
            final(message)@ == old(message)@ + match opt_str(*config_file) {
                Some(f) => "[CONFIG FILE]: "@ + path_debug_str(f) + "\n"@ + match env.config_file_error {
                    None => "[CONFIG FILE]: Well defined.\n"@,
                    Some(e) => "[CONFIG ERROR]: "@ + e@ + "\n"@,
                },
                None => "[CONFIG FILE]: Not Found\n"@ + " By default zellij looks for a file called ["@
                    + CONFIG_NAME@ + "] in the configuration directory\n"@,
            },
    {
        let ghost start = message@;
        match config_file {
            Some(file) => {
                message.append("[CONFIG FILE]: ");
                message.append(debug_path(file.as_str()).as_str());
                message.append("\n");
                let ghost mid = message@;
                match &env.config_file_error {
                    None => {
                        message.append("[CONFIG FILE]: Well defined.\n");
                    },
                    Some(e) => {
                        message.append("[CONFIG ERROR]: ");
                        message.append(e.as_str());
                        message.append("\n");
                        proof {
                            assert(message@ =~= mid + ("[CONFIG ERROR]: "@ + e@ + "\n"@));
                        }
                    },
                }
                proof {
                    assert(message@ =~= start + ("[CONFIG FILE]: "@ + path_debug_str(file@) + "\n"@ + (message@.skip(
                        mid.len() as int,
                    ))));
                }
            },
            None => {
                message.append("[CONFIG FILE]: Not Found\n");
                message.append(" By default zellij looks for a file called [");
                message.append(CONFIG_NAME);
                message.append("] in the configuration directory\n");
                proof {
                    assert(message@ =~= start + ("[CONFIG FILE]: Not Found\n"@
                        + " By default zellij looks for a file called ["@ + CONFIG_NAME@
                        + "] in the configuration directory\n"@));
                }
            },
        }
    }

    /// Appends the part of the report on the data, plugin, layout and
    /// system data directories.
    fn report_dirs_section(message: &mut String, data_dir: &String, layout_dir: &Option<String>)
        ensures
            final(message)@ == old(message)@ + ("[DATA DIR]: "@ + path_debug_str(data_dir@) + "\n"@ + "[PLUGIN DIR]: "@
                + path_debug_str(joined(data_dir@, "plugins"@)) + "\n"@ + match opt_str(*layout_dir) {
                Some(l) => "[LAYOUT DIR]: "@ + path_debug_str(l) + "\n"@,
                None => "[LAYOUT DIR]: Not Found\n"@,
            } + "[SYSTEM DATA DIR]: "@ + path_debug_str(joined(SYSTEM_DEFAULT_DATA_DIR_PREFIX@, "share/zellij"@))
                + "\n"@),
    {
        let ghost start = message@;
        let plugin_dir = join_path(data_dir.as_str(), "plugins");
        message.append("[DATA DIR]: ");
        message.append(debug_path(data_dir.as_str()).as_str());
        message.append("\n");
        message.append("[PLUGIN DIR]: ");
        message.append(debug_path(plugin_dir.as_str()).as_str());
        message.append("\n");
        let ghost mid = message@;
        match layout_dir {
            Some(dir) => {
                message.append("[LAYOUT DIR]: ");
                message.append(debug_path(dir.as_str()).as_str());
                message.append("\n");
            },
            None => {
                message.append("[LAYOUT DIR]: Not Found\n");
            },
        }
        let ghost layout_part = message@.skip(mid.len() as int);
        proof {
            assert(message@ =~= mid + layout_part);
        }
        let system_data_dir = system_data_dir();
        message.append("[SYSTEM DATA DIR]: ");
        message.append(debug_path(system_data_dir.as_str()).as_str());
        message.append("\n");
        proof {
            assert(message@ =~= start + ("[DATA DIR]: "@ + path_debug_str(data_dir@) + "\n"@ + "[PLUGIN DIR]: "@
                + path_debug_str(joined(data_dir@, "plugins"@)) + "\n"@ + layout_part + "[SYSTEM DATA DIR]: "@
                + path_debug_str(joined(SYSTEM_DEFAULT_DATA_DIR_PREFIX@, "share/zellij"@)) + "\n"@));
        }
    }

    /// Appends the part of the report on fonts and the mouse.
    fn report_terminal_section(message: &mut String)
        ensures
            final(message)@ == old(message)@ + terminal_section(),
    {
        let ghost start = message@;
        message.append("[ARROW SEPARATOR]: ");
        message.append(ARROW_SEPARATOR);
        message.append("\n");
        message.append(" Is the [ARROW_SEPARATOR] displayed correctly?\n");
        message.append(
            " If not you may want to either start zellij with a compatible mode: 'zellij options --simplified-ui true'\n",
        );
        let mut hyperlink_compat = String::new();
        hyperlink_compat.append(HYPERLINK_START);
        hyperlink_compat.append(COMPATIBILITY_URL);
        hyperlink_compat.append(HYPERLINK_MID);
        hyperlink_compat.append(COMPATIBILITY_URL);
        hyperlink_compat.append(HYPERLINK_END);
        message.append(" Or check the font that is in use:\n ");
        message.append(hyperlink_compat.as_str());
        message.append("\n");
        message.append("[MOUSE INTERACTION]: \n");
        message.append(" Can be temporarily disabled through pressing the [SHIFT] key.\n");
        message.append(
            " If that doesn't fix any issues consider to disable the mouse handling of zellij: 'zellij options --disable-mouse-mode'\n",
        );
        proof {
            assert(hyperlink_compat@ =~= hyperlink(COMPATIBILITY_URL@, COMPATIBILITY_URL@));
            assert(message@ =~= start + terminal_section());
        }
    }

    /// The report of `--check` (see `defaults_report`): `opts` are the
    /// command-line arguments, `config_options` the merged options, and
    /// `env` what was found in the system.
    pub fn check_defaults_config(opts: &CliArgs, config_options: &Options, env: &CheckEnvironment) -> (r: String)
        ensures
            r@ == defaults_report(*opts, *config_options, *env),
    {
        let data_dir: String = match &opts.data_dir {
            Some(dir) => dir.clone(),
            None => env.default_data_dir.clone(),
        };
        let config_dir = opts.chosen_config_dir(copy_opt(&env.default_config_dir));
        let layout_dir = first_of(copy_opt(&config_options.layout_dir), &get_layout_dir(copy_opt(&config_dir)));
        let config_file = first_of(copy_opt(&opts.config), &join_opt(copy_opt(&config_dir), CONFIG_NAME));

        let mut message = String::new();
        message.append("[Version]: ");
        message.append(debug_quoted(env.version.as_str()).as_str());
        message.append("\n");
        proof {
            assert(message@ =~= "[Version]: "@ + debug_str(env.version@) + "\n"@);
        }
        Self::report_config_dir_section(&mut message, &config_dir, env);
        Self::report_config_file_section(&mut message, &config_file, env);
        Self::report_dirs_section(&mut message, &data_dir, &layout_dir);
        Self::report_terminal_section(&mut message);
        let editor: String = match &env.editor {
            Some(e) => e.clone(),
            None => match &env.visual {
                Some(v) => v.clone(),
                None => String::from_str("Not set, checked $EDITOR and $VISUAL"),
            },
        };
        message.append("[DEFAULT EDITOR]: ");
        message.append(editor.as_str());
        message.append("\n");
        message.append("[FEATURES]: ");
        message.append(debug_list(&env.features).as_str());
        message.append("\n");
        let mut hyperlink_docs = String::new();
        hyperlink_docs.append(HYPERLINK_START);
        hyperlink_docs.append("https://www.zellij.dev/documentation/");
        hyperlink_docs.append(HYPERLINK_MID);
        hyperlink_docs.append("zellij.dev/documentation");
        hyperlink_docs.append(HYPERLINK_END);
        message.append("[DOCUMENTATION]: ");
        message.append(hyperlink_docs.as_str());
        message.append("\n");
        proof {
            assert(hyperlink_docs@ =~= hyperlink(
                "https://www.zellij.dev/documentation/"@,
                "zellij.dev/documentation"@,
            ));
            assert(message@ =~= defaults_report(*opts, *config_options, *env));
        }
        message
    }
}

} // verus!
