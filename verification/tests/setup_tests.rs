use zellij_panes::setup::{
    config_dir_candidates, config_dir_under_home, dump_default_config, dump_specified_layout,
    find_default_config_dir, get_default_data_dir, is_theme_file, get_layout_dir, get_theme_dir, join_path, system_data_dir,
    Asset, CheckEnvironment, CliArgs, Command, Options, Setup, SetupAction, Shell,
};

fn s(text: &str) -> String {
    String::from(text)
}

fn setup() -> Setup {
    Setup {
        dump_config: false,
        clean: false,
        check: false,
        dump_layout: None,
        generate_completion: None,
        generate_auto_start: None,
    }
}

fn no_options() -> Options {
    Options { layout_dir: None, theme_dir: None, default_layout: None }
}

fn args() -> CliArgs {
    CliArgs { config: None, config_dir: None, data_dir: None, layout: None, command: None }
}

#[test]
fn paths_are_joined_with_one_separator() {
    assert_eq!(join_path("/home/u", "layouts"), "/home/u/layouts");
    assert_eq!(join_path("/home/u/", "layouts"), "/home/u/layouts");
    assert_eq!(join_path("", "layouts"), "layouts");
    assert_eq!(join_path("/home/u", "/etc/zellij"), "/etc/zellij");
    assert_eq!(join_path("/home/u", ""), "/home/u/");
}

#[test]
fn layout_and_theme_dirs_are_inside_the_config_dir() {
    assert_eq!(get_layout_dir(Some(s("/c"))), Some(s("/c/layouts")));
    assert_eq!(get_theme_dir(Some(s("/c"))), Some(s("/c/themes")));
    assert_eq!(get_layout_dir(None), None);
    assert_eq!(get_theme_dir(None), None);
}

#[test]
fn config_dir_below_home() {
    assert_eq!(config_dir_under_home(Some(s("/home/u"))), Some(s("/home/u/.config/zellij")));
    assert_eq!(config_dir_under_home(None), None);
}

#[test]
fn config_dirs_are_tried_in_order() {
    let dirs = config_dir_candidates(Some(s("/h/.config/zellij")), Some(s("/x/zellij")));
    assert_eq!(dirs, vec![Some(s("/h/.config/zellij")), Some(s("/x/zellij")), Some(s("/etc/zellij"))]);
    assert_eq!(find_default_config_dir(&dirs, &vec![false, true, true]), Some(s("/x/zellij")));
    assert_eq!(find_default_config_dir(&dirs, &vec![false, false, false]), None);
    let missing_home = config_dir_candidates(None, Some(s("/x/zellij")));
    assert_eq!(find_default_config_dir(&missing_home, &vec![true, false, true]), Some(s("/etc/zellij")));
}

#[test]
fn data_dir_prefers_the_platform_one() {
    assert_eq!(get_default_data_dir(s("/d"), true, true), "/d");
    assert_eq!(get_default_data_dir(s("/d"), false, true), "/usr/share/zellij");
    assert_eq!(get_default_data_dir(s("/d"), false, false), "/d");
    assert_eq!(system_data_dir(), "/usr/share/zellij");
}

#[test]
fn layouts_to_dump() {
    assert_eq!(dump_default_config(), Asset::DefaultConfig);
    assert_eq!(dump_specified_layout("strider"), Ok(Asset::StriderLayout));
    assert_eq!(dump_specified_layout("default"), Ok(Asset::DefaultLayout));
    assert_eq!(dump_specified_layout("compact"), Ok(Asset::CompactBarLayout));
    assert_eq!(dump_specified_layout("disable-status"), Ok(Asset::NoStatusLayout));
    assert_eq!(dump_specified_layout("fancy"), Err(s("Layout: fancy not found")));
    assert_eq!(dump_specified_layout("Default"), Err(s("Layout: Default not found")));
}

#[test]
fn completions_for_supported_shells() {
    assert_eq!(Setup::generate_completion("bash"), Ok((Shell::Bash, Some(Asset::BashExtraCompletion))));
    assert_eq!(Setup::generate_completion("FISH"), Ok((Shell::Fish, Some(Asset::FishExtraCompletion))));
    assert_eq!(Setup::generate_completion("Zsh"), Ok((Shell::Zsh, Some(Asset::ZshExtraCompletion))));
    assert_eq!(Setup::generate_completion("elvish"), Ok((Shell::Elvish, None)));
    assert_eq!(Setup::generate_completion("PowerShell"), Ok((Shell::PowerShell, None)));
    assert_eq!(Setup::generate_completion("tcsh"), Err(s("Unsupported shell: tcsh")));
}

#[test]
fn auto_start_scripts_for_supported_shells() {
    assert_eq!(Setup::generate_auto_start("bash"), Ok(Some(Asset::BashAutoStartScript)));
    assert_eq!(Setup::generate_auto_start("Fish"), Ok(Some(Asset::FishAutoStartScript)));
    assert_eq!(Setup::generate_auto_start("zsh"), Ok(Some(Asset::ZshAutoStartScript)));
    assert_eq!(Setup::generate_auto_start("elvish"), Ok(None));
    assert_eq!(Setup::generate_auto_start("cmd"), Err(s("Unsupported shell: cmd")));
}

#[test]
fn setup_commands_in_order_of_precedence() {
    assert!(matches!(setup().from_cli(), SetupAction::Proceed));
    let mut all = setup();
    all.dump_config = true;
    all.generate_completion = Some(s("bash"));
    all.dump_layout = Some(s("strider"));
    assert!(matches!(all.from_cli(), SetupAction::DumpConfig));
    all.clean = true;
    assert!(matches!(all.from_cli(), SetupAction::Proceed));
    let mut completion = setup();
    completion.generate_completion = Some(s("zsh"));
    completion.generate_auto_start = Some(s("bash"));
    assert!(matches!(completion.from_cli(), SetupAction::GenerateCompletion(ref sh) if sh == "zsh"));
    let mut auto_start = setup();
    auto_start.generate_auto_start = Some(s("bash"));
    auto_start.dump_layout = Some(s("compact"));
    assert!(matches!(auto_start.from_cli(), SetupAction::GenerateAutoStart(ref sh) if sh == "bash"));
    let mut layout = setup();
    layout.dump_layout = Some(s("compact"));
    assert!(matches!(layout.from_cli(), SetupAction::DumpLayout(ref l) if l == "compact"));
}

#[test]
fn check_is_asked_for() {
    let mut check = setup();
    assert!(!check.from_cli_with_options());
    check.check = true;
    assert!(check.from_cli_with_options());
}

#[test]
fn setup_command_of_the_command_line() {
    let mut a = args();
    assert!(matches!(Setup::handle_setup_commands(&a), SetupAction::Proceed));
    assert!(!a.should_clean_config());
    let mut clean = setup();
    clean.clean = true;
    clean.dump_config = true;
    a.command = Some(Command::Setup(clean));
    assert!(a.should_clean_config());
    assert!(matches!(Setup::handle_setup_commands(&a), SetupAction::Proceed));
    let mut dump = setup();
    dump.dump_config = true;
    a.command = Some(Command::Setup(dump));
    assert!(matches!(Setup::handle_setup_commands(&a), SetupAction::DumpConfig));
    a.command = Some(Command::Sessions);
    assert!(matches!(Setup::handle_setup_commands(&a), SetupAction::Proceed));
}

#[test]
fn command_line_options_override_the_configuration() {
    let config = Options { layout_dir: Some(s("/cfg/l")), theme_dir: Some(s("/cfg/t")), default_layout: Some(s("compact")) };
    let cli = Options { layout_dir: Some(s("/cli/l")), theme_dir: None, default_layout: None };
    let merged = config.merge(cli);
    assert_eq!(merged.layout_dir, Some(s("/cli/l")));
    assert_eq!(merged.theme_dir, Some(s("/cfg/t")));
    assert_eq!(merged.default_layout, Some(s("compact")));
}

#[test]
fn layout_dir_and_layout_choice() {
    let config = Options { layout_dir: Some(s("/cfg/l")), theme_dir: None, default_layout: Some(s("compact")) };
    let cli = Options { layout_dir: None, theme_dir: None, default_layout: Some(s("strider")) };
    let mut a = args();
    let (dir, layout) = Setup::layout_dir_and_choice(Some(&cli), &config, &a, Some(s("/found")));
    assert_eq!(dir, Some(s("/cfg/l")));
    assert_eq!(layout, Some(s("strider")));
    a.layout = Some(s("my.kdl"));
    let (_, layout) = Setup::layout_dir_and_choice(None, &config, &a, None);
    assert_eq!(layout, Some(s("my.kdl")));
    let (dir, layout) = Setup::layout_dir_and_choice(None, &no_options(), &args(), Some(s("/found")));
    assert_eq!(dir, Some(s("/found/layouts")));
    assert_eq!(layout, None);
    a.config_dir = Some(s("/given"));
    let (dir, _) = Setup::layout_dir_and_choice(None, &no_options(), &a, Some(s("/found")));
    assert_eq!(dir, Some(s("/given/layouts")));
}

#[test]
fn theme_dir_choice() {
    assert_eq!(Setup::theme_dir(&no_options(), &args(), Some(s("/found"))), Some(s("/found/themes")));
    let opts = Options { layout_dir: None, theme_dir: Some(s("/t")), default_layout: None };
    assert_eq!(Setup::theme_dir(&opts, &args(), Some(s("/found"))), Some(s("/t")));
    assert_eq!(Setup::theme_dir(&no_options(), &args(), None), None);
}

#[test]
fn cli_options_are_read_from_the_command() {
    let mut a = args();
    assert!(a.cli_config_options().is_none());
    a.command = Some(Command::Options(Options { layout_dir: Some(s("/l")), theme_dir: None, default_layout: None }));
    assert_eq!(a.cli_config_options().unwrap().layout_dir, Some(s("/l")));
    assert_eq!(a.chosen_config_dir(Some(s("/f"))), Some(s("/f")));
    a.config_dir = Some(s("/c"));
    assert_eq!(a.chosen_config_dir(Some(s("/f"))), Some(s("/c")));
}

fn environment() -> CheckEnvironment {
    CheckEnvironment {
        version: s("0.34.0"),
        default_data_dir: s("/home/u/.local/share/zellij"),
        default_config_dir: None,
        default_config_dirs: vec![Some(s("/home/u/.config/zellij")), Some(s("/home/u/.config/zellij")), Some(s("/etc/zellij"))],
        config_file_error: None,
        editor: None,
        visual: Some(s("vim")),
        features: vec![s("disable_automatic_asset_installation")],
    }
}

#[test]
fn check_report_without_a_config_dir() {
    let report = Setup::check_defaults_config(&args(), &no_options(), &environment());
    let expected_start = "[Version]: \"0.34.0\"\n\
        [CONFIG DIR]: Not Found\n \
        On your system zellij looks in the following config directories by default:\n \
        \"/home/u/.config/zellij\"\n \
        \"/etc/zellij\"\n\
        [CONFIG FILE]: Not Found\n \
        By default zellij looks for a file called [config.kdl] in the configuration directory\n\
        [DATA DIR]: \"/home/u/.local/share/zellij\"\n\
        [PLUGIN DIR]: \"/home/u/.local/share/zellij/plugins\"\n\
        [LAYOUT DIR]: Not Found\n\
        [SYSTEM DATA DIR]: \"/usr/share/zellij\"\n\
        [ARROW SEPARATOR]: \u{e0b0}\n";
    assert!(report.starts_with(expected_start), "{}", report);
    assert!(report.contains("[DEFAULT EDITOR]: vim\n"));
    assert!(report.contains("[FEATURES]: [\"disable_automatic_asset_installation\"]\n"));
    assert!(report.ends_with(
        "[DOCUMENTATION]: \u{1b}]8;;https://www.zellij.dev/documentation/\u{1b}\\zellij.dev/documentation\u{1b}]8;;\u{1b}\\\n"
    ));
}

#[test]
fn check_report_with_a_config_dir() {
    let mut env = environment();
    env.default_config_dir = Some(s("/home/u/.config/zellij"));
    env.config_file_error = Some(s("bad node"));
    env.editor = Some(s("nano"));
    let mut a = args();
    a.data_dir = Some(s("/data"));
    let opts = Options { layout_dir: Some(s("/l")), theme_dir: None, default_layout: None };
    let report = Setup::check_defaults_config(&a, &opts, &env);
    assert!(report.contains("[CONFIG DIR]: \"/home/u/.config/zellij\"\n[CONFIG FILE]: \"/home/u/.config/zellij/config.kdl\"\n[CONFIG ERROR]: bad node\n"));
    assert!(report.contains("[DATA DIR]: \"/data\"\n[PLUGIN DIR]: \"/data/plugins\"\n[LAYOUT DIR]: \"/l\"\n"));
    assert!(report.contains("[DEFAULT EDITOR]: nano\n"));
    env.config_file_error = None;
    let report = Setup::check_defaults_config(&a, &opts, &env);
    assert!(report.contains("[CONFIG FILE]: Well defined.\n"));
    let mut b = args();
    b.config = Some(s("/my/config.kdl"));
    let report = Setup::check_defaults_config(&b, &no_options(), &env);
    assert!(report.contains("[CONFIG FILE]: \"/my/config.kdl\"\n"));
    assert!(report.contains("[LAYOUT DIR]: \"/home/u/.config/zellij/layouts\"\n"));
    env.editor = None;
    env.visual = None;
    let report = Setup::check_defaults_config(&b, &no_options(), &env);
    assert!(report.contains("[DEFAULT EDITOR]: Not set, checked $EDITOR and $VISUAL\n"));
}

#[test]
fn check_report_mentions_the_terminal_hints() {
    let report = Setup::check_defaults_config(&args(), &no_options(), &environment());
    assert!(report.contains(" Is the [ARROW_SEPARATOR] displayed correctly?\n"));
    assert!(report.contains(" Or check the font that is in use:\n \u{1b}]8;;https://zellij.dev/documentation/compatibility.html#the-status-bar-fonts-dont-render-correctly\u{1b}\\https://zellij.dev/documentation/compatibility.html#the-status-bar-fonts-dont-render-correctly\u{1b}]8;;\u{1b}\\\n"));
    assert!(report.contains("[MOUSE INTERACTION]: \n Can be temporarily disabled through pressing the [SHIFT] key.\n"));
}

#[test]
fn default_setup_asks_for_nothing() {
    let d = Setup::default();
    assert!(!d.dump_config && !d.clean && !d.check);
    assert!(d.dump_layout.is_none() && d.generate_completion.is_none() && d.generate_auto_start.is_none());
    assert!(matches!(d.from_cli(), SetupAction::Proceed));
}

#[test]
fn check_report_shows_paths_in_their_debug_form() {
    let mut env = environment();
    env.default_config_dir = Some(s("/home/o'neil/.config/zellij"));
    env.features = vec![s("a"), s("b")];
    let report = Setup::check_defaults_config(&args(), &no_options(), &env);
    assert!(report.contains("[CONFIG DIR]: \"/home/o'neil/.config/zellij\"\n"), "{}", report);
    assert!(report.contains("[FEATURES]: [\"a\", \"b\"]\n"));
    env.version = s("o'1");
    let report = Setup::check_defaults_config(&args(), &no_options(), &env);
    assert!(report.starts_with("[Version]: \"o'1\"\n"));
}

#[test]
fn theme_files_have_the_kdl_extension() {
    assert!(is_theme_file("/themes/dracula.kdl"));
    assert!(is_theme_file("nord.kdl"));
    assert!(!is_theme_file("/themes/dracula.yaml"));
    assert!(!is_theme_file("/themes/.kdl"));
    assert!(!is_theme_file("/themes/kdl"));
}

#[test]
fn check_report_lists_a_directory_once_however_it_is_written() {
    let mut env = environment();
    env.default_config_dirs = vec![Some(s("/home/u//.config/zellij")), Some(s("/home/u/.config/zellij/")), Some(s("/etc/zellij"))];
    let report = Setup::check_defaults_config(&args(), &no_options(), &env);
    assert!(report.contains("by default:\n \"/home/u//.config/zellij\"\n \"/etc/zellij\"\n[CONFIG FILE]"), "{}", report);
}
