use thrum::cli::{config_path_arg, parse_args, CliAction, Config, ConfigLoad};
use thrum::tab::{ProcSortField, Tab, TabOrientation};

fn strings(args: &[&str]) -> Vec<String> {
    args.iter().map(ToString::to_string).collect()
}

fn parse_config(args: &[&str]) -> Config {
    let input = strings(args);
    match parse_args(&input, ConfigLoad::NoFile) {
        CliAction::Config(cfg) => cfg,
        _ => panic!("expected Config, got {input:?}"),
    }
}

fn parse_error(args: &[&str], load: ConfigLoad) -> String {
    match parse_args(&strings(args), load) {
        CliAction::Error(m) => m,
        other => panic!("expected an error, got {other:?}"),
    }
}

fn check_short_flags() {
    let cfg = parse_config(&["-r", "500", "-t", "net", "-s"]);
    assert_eq!(cfg.refresh_ms, 500);
    assert_eq!(cfg.default_tab, Tab::Net);
    assert!(cfg.hide_sidebar);
}

fn check_long_flags() {
    let cfg = parse_config(&["--refresh", "300", "--tab", "files", "--no-sidebar"]);
    assert_eq!(cfg.refresh_ms, 300);
    assert_eq!(cfg.default_tab, Tab::Files);
    assert!(cfg.hide_sidebar);
}

fn check_partial() {
    let cfg = parse_config(&["-r", "200"]);
    assert_eq!(cfg.refresh_ms, 200);
    assert_eq!(cfg.default_tab, Tab::Dash);
    assert!(!cfg.hide_sidebar);
}

fn check_tab_names() {
    for (name, tab) in [
        ("dash", Tab::Dash),
        ("proc", Tab::Proc),
        ("net", Tab::Net),
        ("files", Tab::Files),
        ("time", Tab::Time),
        ("temp", Tab::Temp),
        ("cores", Tab::Cores),
        ("disk", Tab::Disk),
        ("mem", Tab::Mem),
    ] {
        let cfg = parse_config(&["-t", name]);
        assert_eq!(cfg.default_tab, tab, "tab '{name}'");
    }
}

fn check_order() {
    let cfg1 = parse_config(&["-r", "500", "-t", "mem", "-s"]);
    assert_eq!(cfg1.refresh_ms, 500);
    assert_eq!(cfg1.default_tab, Tab::Mem);
    assert!(cfg1.hide_sidebar);
    let cfg2 = parse_config(&["-s", "-r", "500", "-t", "mem"]);
    assert_eq!(cfg2, cfg1);
    let cfg3 = parse_config(&["-t", "mem", "-s", "-r", "500"]);
    assert_eq!(cfg3, cfg1);
}

fn check_tabs_flag() {
    let cfg = parse_config(&["--tabs", "horizontal"]);
    assert_eq!(cfg.tab_orientation, TabOrientation::Horizontal);
    let cfg = parse_config(&["--tabs", "sidebar"]);
    assert_eq!(cfg.tab_orientation, TabOrientation::Sidebar);
}

fn check_tabs_horizontal_footer() {
    let cfg = parse_config(&["--tabs", "horizontal_footer"]);
    assert_eq!(cfg.tab_orientation, TabOrientation::HorizontalFooter);
}

fn check_help() {
    let result = parse_args(&["--help".into()], ConfigLoad::NoFile);
    assert!(matches!(result, CliAction::Help));
    let result = parse_args(&["-h".into()], ConfigLoad::NoFile);
    assert!(matches!(result, CliAction::Help));
}

fn check_version() {
    let result = parse_args(&["--version".into()], ConfigLoad::NoFile);
    assert!(matches!(result, CliAction::Version));
    let result = parse_args(&["-V".into()], ConfigLoad::NoFile);
    assert!(matches!(result, CliAction::Version));
}

fn check_config_missing_value() {
    let result = parse_args(&["--config".into()], ConfigLoad::NoFile);
    assert!(matches!(result, CliAction::Error(_)));
}

fn check_tabs_missing_value() {
    let result = parse_args(&["--tabs".into()], ConfigLoad::NoFile);
    assert!(matches!(result, CliAction::Error(_)));
}

fn check_unknown_flag() {
    let result = parse_args(&["--bogus".into()], ConfigLoad::NoFile);
    assert!(matches!(result, CliAction::Error(_)));
}

fn check_scroll_step() {
    let cfg = parse_config(&["--scroll-step", "5"]);
    assert_eq!(cfg.scroll_step, 5);

    let cfg = parse_config(&[]);
    assert_eq!(cfg.scroll_step, 3, "default from Config::default()");
}

#[test]
fn app_parse_args_short_flags() {
    check_short_flags();
}

#[test]
fn cli_parse_args_short_flags() {
    check_short_flags();
}

#[test]
fn app_parse_args_long_flags() {
    check_long_flags();
}

#[test]
fn cli_parse_args_long_flags() {
    check_long_flags();
}

#[test]
fn app_parse_args_partial() {
    check_partial();
}

#[test]
fn cli_parse_args_partial() {
    check_partial();
}

#[test]
fn app_parse_args_tab_names() {
    check_tab_names();
}

#[test]
fn cli_parse_args_tab_names() {
    check_tab_names();
}

#[test]
fn app_parse_args_order() {
    check_order();
}

#[test]
fn cli_parse_args_order() {
    check_order();
}

#[test]
fn app_parse_args_tabs_flag() {
    check_tabs_flag();
}

#[test]
fn cli_parse_args_tabs_flag() {
    check_tabs_flag();
}

#[test]
fn app_parse_args_tabs_horizontal_footer() {
    check_tabs_horizontal_footer();
}

#[test]
fn cli_parse_args_tabs_horizontal_footer() {
    check_tabs_horizontal_footer();
}

#[test]
fn app_parse_args_help_returns_help_action() {
    check_help();
}

#[test]
fn cli_parse_args_help_returns_help_action() {
    check_help();
}

#[test]
fn app_parse_args_version_returns_version_action() {
    check_version();
}

#[test]
fn cli_parse_args_version_returns_version_action() {
    check_version();
}

#[test]
fn app_parse_args_config_missing_value() {
    check_config_missing_value();
}

#[test]
fn cli_parse_args_config_missing_value() {
    check_config_missing_value();
}

#[test]
fn app_parse_args_tabs_missing_value() {
    check_tabs_missing_value();
}

#[test]
fn cli_parse_args_tabs_missing_value() {
    check_tabs_missing_value();
}

#[test]
fn app_parse_args_unknown_flag() {
    check_unknown_flag();
}

#[test]
fn cli_parse_args_unknown_flag() {
    check_unknown_flag();
}

#[test]
fn app_scroll_step_cli_flag() {
    check_scroll_step();
}

#[test]
fn cli_scroll_step_cli_flag() {
    check_scroll_step();
}

// ── More cases ──────────────────────────────────────────────────────────

#[test]
fn parse_args_error_messages() {
    assert_eq!(parse_error(&["-r"], ConfigLoad::NoFile), "--refresh requires a value");
    assert_eq!(
        parse_error(&["-r", "0"], ConfigLoad::NoFile),
        "--refresh must be a positive integer"
    );
    assert_eq!(
        parse_error(&["--refresh", "fast"], ConfigLoad::NoFile),
        "--refresh must be a positive integer"
    );
    assert_eq!(
        parse_error(&["--refresh", "18446744073709551616"], ConfigLoad::NoFile),
        "--refresh must be a positive integer"
    );
    assert_eq!(parse_error(&["-t"], ConfigLoad::NoFile), "--tab requires a value");
    assert_eq!(parse_error(&["-t", "nope"], ConfigLoad::NoFile), "unknown tab 'nope'");
    assert_eq!(parse_error(&["--tabs"], ConfigLoad::NoFile), "--tabs requires a value");
    assert_eq!(
        parse_error(&["--tabs", "diagonal"], ConfigLoad::NoFile),
        "--tabs must be 'sidebar', 'horizontal', or 'horizontal_footer'"
    );
    assert_eq!(
        parse_error(&["--scroll-step", "-1"], ConfigLoad::NoFile),
        "--scroll-step must be a positive integer"
    );
    assert_eq!(parse_error(&["--bogus"], ConfigLoad::NoFile), "unknown flag '--bogus'");
    assert_eq!(parse_error(&["--config"], ConfigLoad::NoFile), "--config requires a value");
    assert_eq!(
        parse_error(&["--bogus", "-c"], ConfigLoad::NoFile),
        "unknown flag '--bogus'",
        "flags are checked in order, so the unknown flag comes first"
    );
    assert_eq!(
        parse_error(&["-s", "-c"], ConfigLoad::NoFile),
        "--config requires a value"
    );
}

#[test]
fn parse_args_accepts_plus_and_case() {
    let cfg = parse_config(&["-r", "+250", "-t", "PrOc", "--tabs", "HORIZONTAL"]);
    assert_eq!(cfg.refresh_ms, 250);
    assert_eq!(cfg.default_tab, Tab::Proc);
    assert_eq!(cfg.tab_orientation, TabOrientation::Horizontal);
}

#[test]
fn parse_args_help_wins_over_errors() {
    let result = parse_args(&strings(&["--bogus", "-V", "--help"]), ConfigLoad::NoFile);
    assert!(matches!(result, CliAction::Version), "the first info flag decides");
}

#[test]
fn parse_args_config_file_is_overridden_by_flags() {
    let file = Config {
        refresh_ms: 250,
        default_tab: Tab::Net,
        proc_sort_default: ProcSortField::Name,
        ..Config::default()
    };
    let args = strings(&["-c", "/etc/thrum.toml", "-t", "mem"]);
    assert_eq!(config_path_arg(&args), Some("/etc/thrum.toml"));
    match parse_args(&args, ConfigLoad::Loaded(file)) {
        CliAction::Config(cfg) => {
            assert_eq!(cfg.default_tab, Tab::Mem, "the flag overrides the file");
            assert_eq!(cfg.refresh_ms, 250, "the file's value stays");
            assert_eq!(cfg.proc_sort_default, ProcSortField::Name);
        },
        other => panic!("expected Config, got {other:?}"),
    }
}

#[test]
fn parse_args_config_file_problems() {
    assert_eq!(
        parse_error(&["--config", "/nope.toml"], ConfigLoad::Missing),
        "config file '/nope.toml' not found"
    );
    assert_eq!(
        parse_error(&["--config", "/bad.toml"], ConfigLoad::Failed("broken".to_owned())),
        "broken"
    );
    match parse_args(&[], ConfigLoad::Failed("default file broken".to_owned())) {
        CliAction::Config(cfg) => {
            assert_eq!(cfg.config_warning.as_deref(), Some("default file broken"));
            assert_eq!(cfg.refresh_ms, 1000);
        },
        other => panic!("expected Config, got {other:?}"),
    }
}

#[test]
fn parse_args_zero_refresh_from_file_becomes_default() {
    let file = Config {
        refresh_ms: 0,
        ..Config::default()
    };
    match parse_args(&[], ConfigLoad::Loaded(file)) {
        CliAction::Config(cfg) => assert_eq!(cfg.refresh_ms, 1000),
        other => panic!("expected Config, got {other:?}"),
    }
}

#[test]
fn parse_args_later_config_flag_needs_value() {
    let args = strings(&["-c", "a.toml", "-s", "--config"]);
    match parse_args(&args, ConfigLoad::Loaded(Config::default())) {
        CliAction::Error(m) => assert_eq!(m, "--config requires a value"),
        other => panic!("expected an error, got {other:?}"),
    }
}

#[test]
fn parse_args_later_flag_overrides_earlier_and_file() {
    let file = Config {
        refresh_ms: 2000,
        default_tab: Tab::Mem,
        scroll_step: 7,
        ..Config::default()
    };
    let args = strings(&["-c", "a.toml", "-t", "net", "-r", "300", "--tab", "disk", "--scroll-step", "2"]);
    match parse_args(&args, ConfigLoad::Loaded(file)) {
        CliAction::Config(cfg) => {
            assert_eq!(cfg.default_tab, Tab::Disk);
            assert_eq!(cfg.refresh_ms, 300);
            assert_eq!(cfg.scroll_step, 2);
            assert_eq!(cfg.tab_orientation, TabOrientation::Sidebar);
        }
        other => panic!("expected Config, got {other:?}"),
    }
}

#[test]
fn config_path_arg_finds_first_value() {
    assert_eq!(config_path_arg(&strings(&["-s"])), None);
    assert_eq!(config_path_arg(&strings(&["-s", "--config"])), None);
    assert_eq!(config_path_arg(&strings(&["--config", "x", "-c", "y"])), Some("x"));
}
