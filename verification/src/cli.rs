//! Command-line arguments and configuration.
//!
//! `parse_args` decides what the program does from its arguments and from
//! what reading the configuration file gave; reading the file is left to
//! the caller, which asks `config_path_arg` which file to read.

use vstd::prelude::*;

use crate::tab::{ProcSortField, Tab, TabOrientation};
use crate::text::{ascii_lower_seq, lower_equals, parse_u64, parse_u64_spec, same_text};
use vstd::string::StringExecFns;

verus! {

/// The configuration: from the file (or the defaults), then the flags.
#[derive(Clone, Debug, PartialEq, Eq)]
pub struct Config {
    pub refresh_ms: u64,
    pub default_tab: Tab,
    pub hide_sidebar: bool,
    pub tab_orientation: TabOrientation,
    pub proc_sort_default: ProcSortField,
    pub proc_sort_asc_default: bool,
    pub history_window: usize,
    pub scroll_step: usize,
    /// A problem with the default configuration file, to show to the user.
    pub config_warning: Option<String>,
}

/// The model of a `Config`.
#[verifier::ext_equal]
pub struct ConfigView {
    pub refresh_ms: u64,
    pub default_tab: Tab,
    pub hide_sidebar: bool,
    pub tab_orientation: TabOrientation,
    pub proc_sort_default: ProcSortField,
    pub proc_sort_asc_default: bool,
    pub history_window: usize,
    pub scroll_step: usize,
    pub config_warning: Option<Seq<char>>,
}

impl View for Config {
    type V = ConfigView;

    open spec fn view(&self) -> ConfigView {
        ConfigView {
            refresh_ms: self.refresh_ms,
            default_tab: self.default_tab,
            hide_sidebar: self.hide_sidebar,
            tab_orientation: self.tab_orientation,
            proc_sort_default: self.proc_sort_default,
            proc_sort_asc_default: self.proc_sort_asc_default,
            history_window: self.history_window,
            scroll_step: self.scroll_step,
            config_warning: match self.config_warning {
                Some(w) => Some(w@),
                None => None,
            },
        }
    }
}

/// The default configuration.
pub open spec fn default_config() -> ConfigView {
    ConfigView {
        refresh_ms: 1000,
        default_tab: Tab::Dash,
        hide_sidebar: false,
        tab_orientation: TabOrientation::Sidebar,
        proc_sort_default: ProcSortField::Cpu,
        proc_sort_asc_default: false,
        history_window: 60,
        scroll_step: 3,
        config_warning: None,
    }
}

impl Default for Config {
    fn default() -> (r: Self)
        ensures
            r@ == default_config(),
    {
        Config {
            refresh_ms: 1000,
            default_tab: Tab::Dash,
            hide_sidebar: false,
            tab_orientation: TabOrientation::Sidebar,
            proc_sort_default: ProcSortField::Cpu,
            proc_sort_asc_default: false,
            history_window: 60,
            scroll_step: 3,
            config_warning: None,
        }
    }
}

/// What the program does after reading its arguments.
#[derive(Debug)]
pub enum CliAction {
    Help,
    Version,
    Error(String),
    Config(Config),
}

/// The model of a `CliAction`.
pub enum CliActionView {
    Help,
    Version,
    Error(Seq<char>),
    Config(ConfigView),
}

impl View for CliAction {
    type V = CliActionView;

    open spec fn view(&self) -> CliActionView {
        match self {
            CliAction::Help => CliActionView::Help,
            CliAction::Version => CliActionView::Version,
            CliAction::Error(m) => CliActionView::Error(m@),
            CliAction::Config(c) => CliActionView::Config(c@),
        }
    }
}

/// What reading the configuration file gave.
#[derive(Debug)]
pub enum ConfigLoad {
    /// There was no file to read: no path was given and no default location
    /// is known.
    NoFile,
    /// The file does not exist.
    Missing,
    /// The file was read and parsed.
    Loaded(Config),
    /// Reading or parsing the file failed, with this message.
    Failed(String),
}

/// The model of a `ConfigLoad`.
pub enum ConfigLoadView {
    NoFile,
    Missing,
    Loaded(ConfigView),
    Failed(Seq<char>),
}

impl View for ConfigLoad {
    type V = ConfigLoadView;

    open spec fn view(&self) -> ConfigLoadView {
        match self {
            ConfigLoad::NoFile => ConfigLoadView::NoFile,
            ConfigLoad::Missing => ConfigLoadView::Missing,
            ConfigLoad::Loaded(c) => ConfigLoadView::Loaded(c@),
            ConfigLoad::Failed(m) => ConfigLoadView::Failed(m@),
        }
    }
}

// ── The model of argument parsing ───────────────────────────────────────

/// The characters of each argument.
pub open spec fn arg_texts(args: Seq<String>) -> Seq<Seq<char>> {
    args.map_values(|a: String| a@)
}

/// Whether `a` asks for help.
pub open spec fn is_help_flag(a: Seq<char>) -> bool {
    a == "--help"@ || a == "-h"@
}

/// Whether `a` asks for the version.
pub open spec fn is_version_flag(a: Seq<char>) -> bool {
    a == "--version"@ || a == "-V"@
}

/// Whether `a` names the configuration file flag.
pub open spec fn is_config_flag(a: Seq<char>) -> bool {
    a == "--config"@ || a == "-c"@
}

/// The first help or version flag at position `i` or later:
/// `Some(true)` for help, `Some(false)` for version.
pub open spec fn info_flag_from(args: Seq<Seq<char>>, i: int) -> Option<bool>
    decreases args.len() - i,
{
    if i < 0 || i >= args.len() {
        None
    } else if is_help_flag(args[i]) {
        Some(true)
    } else if is_version_flag(args[i]) {
        Some(false)
    } else {
        info_flag_from(args, i + 1)
    }
}

/// The position of the first configuration file flag at `i` or later.
pub open spec fn config_flag_from(args: Seq<Seq<char>>, i: int) -> Option<int>
    decreases args.len() - i,
{
    if i < 0 || i >= args.len() {
        None
    } else if is_config_flag(args[i]) {
        Some(i)
    } else {
        config_flag_from(args, i + 1)
    }
}

/// The configuration file that the arguments name: the argument after the
/// first `--config` or `-c`, when there is one.
pub open spec fn config_path_spec(args: Seq<Seq<char>>) -> Option<Seq<char>> {
    match config_flag_from(args, 0) {
        Some(i) => if i + 1 < args.len() {
            Some(args[i + 1])
        } else {
            None
        },
        None => None,
    }
}

/// The configuration to start from, given the file named on the command
/// line (if any) and what reading the file gave. A named file must exist
/// and be valid; a problem with the default file only produces a warning.
pub open spec fn resolve_config_spec(path: Option<Seq<char>>, load: ConfigLoadView) -> Result<
    ConfigView,
    CliActionView,
> {
    match path {
        Some(p) => match load {
            ConfigLoadView::Missing => Err(
                CliActionView::Error("config file '"@ + p + "' not found"@),
            ),
            ConfigLoadView::Failed(m) => Err(CliActionView::Error(m)),
            ConfigLoadView::Loaded(c) => Ok(c),
            ConfigLoadView::NoFile => Ok(default_config()),
        },
        None => match load {
            ConfigLoadView::Loaded(c) => Ok(c),
            ConfigLoadView::Failed(m) => Ok(ConfigView { config_warning: Some(m), ..default_config() }),
            _ => Ok(default_config()),
        },
    }
}

/// The tab that `name` names, ignoring ASCII case.
pub open spec fn tab_name_spec(name: Seq<char>) -> Option<Tab> {
    let l = ascii_lower_seq(name);
    if l == "dash"@ {
        Some(Tab::Dash)
    } else if l == "proc"@ {
        Some(Tab::Proc)
    } else if l == "net"@ {
        Some(Tab::Net)
    } else if l == "files"@ {
        Some(Tab::Files)
    } else if l == "time"@ {
        Some(Tab::Time)
    } else if l == "temp"@ {
        Some(Tab::Temp)
    } else if l == "cores"@ {
        Some(Tab::Cores)
    } else if l == "disk"@ {
        Some(Tab::Disk)
    } else if l == "mem"@ {
        Some(Tab::Mem)
    } else {
        None
    }
}

/// The orientation that `name` names, ignoring ASCII case.
pub open spec fn orientation_name_spec(name: Seq<char>) -> Option<TabOrientation> {
    let l = ascii_lower_seq(name);
    if l == "sidebar"@ {
        Some(TabOrientation::Sidebar)
    } else if l == "horizontal"@ {
        Some(TabOrientation::Horizontal)
    } else if l == "horizontal_footer"@ {
        Some(TabOrientation::HorizontalFooter)
    } else {
        None
    }
}

/// The message for a flag given without its value.
pub open spec fn missing_value_msg(flag: Seq<char>) -> Seq<char> {
    flag + " requires a value"@
}

/// The message for a flag whose value is not a positive integer.
pub open spec fn not_positive_msg(flag: Seq<char>) -> Seq<char> {
    flag + " must be a positive integer"@
}

/// The message for a bad `--tabs` value.
pub open spec fn tabs_msg() -> Seq<char> {
    "--tabs must be 'sidebar', 'horizontal', or 'horizontal_footer'"@
}

/// The positive integer after the flag at position `i` (reported as `flag`).
pub open spec fn positive_int_spec(args: Seq<Seq<char>>, i: int, flag: Seq<char>) -> Result<
    u64,
    Seq<char>,
> {
    if i + 1 >= args.len() {
        Err(missing_value_msg(flag))
    } else {
        match parse_u64_spec(args[i + 1]) {
            Some(n) => if n > 0 {
                Ok(n)
            } else {
                Err(not_positive_msg(flag))
            },
            None => Err(not_positive_msg(flag)),
        }
    }
}

/// The configuration after the last flag: a refresh interval of 0 (possible
/// only from the file) becomes 1000 ms.
pub open spec fn finish_config(c: ConfigView) -> ConfigView {
    if c.refresh_ms == 0 {
        ConfigView { refresh_ms: 1000, ..c }
    } else {
        c
    }
}

/// Whether `a` sets the refresh interval.
pub open spec fn is_refresh_flag(a: Seq<char>) -> bool {
    a == "-r"@ || a == "--refresh"@
}

/// Whether `a` sets the start tab.
pub open spec fn is_tab_flag(a: Seq<char>) -> bool {
    a == "-t"@ || a == "--tab"@
}

/// Whether `a` hides the sidebar.
pub open spec fn is_sidebar_flag(a: Seq<char>) -> bool {
    a == "-s"@ || a == "--no-sidebar"@
}

/// How many arguments the flag `a` takes up: one for `--no-sidebar`, two
/// (the flag and its value) for every other flag.
pub open spec fn flag_width(a: Seq<char>) -> int {
    if is_sidebar_flag(a) {
        1
    } else {
        2
    }
}

/// What the flag at position `i` does to `c`: the new configuration, or
/// the error that ends parsing.
pub open spec fn flag_step(args: Seq<Seq<char>>, i: int, c: ConfigView) -> Result<
    ConfigView,
    Seq<char>,
> {
    let a = args[i];
    if is_refresh_flag(a) {
        match positive_int_spec(args, i, "--refresh"@) {
            Ok(n) => Ok(ConfigView { refresh_ms: n, ..c }),
            Err(m) => Err(m),
        }
    } else if is_tab_flag(a) {
        if i + 1 >= args.len() {
            Err(missing_value_msg("--tab"@))
        } else {
            match tab_name_spec(args[i + 1]) {
                Some(t) => Ok(ConfigView { default_tab: t, ..c }),
                None => Err("unknown tab '"@ + args[i + 1] + "'"@),
            }
        }
    } else if is_sidebar_flag(a) {
        Ok(ConfigView { hide_sidebar: true, ..c })
    } else if a == "--tabs"@ {
        if i + 1 >= args.len() {
            Err(missing_value_msg("--tabs"@))
        } else {
            match orientation_name_spec(args[i + 1]) {
                Some(o) => Ok(ConfigView { tab_orientation: o, ..c }),
                None => Err(tabs_msg()),
            }
        }
    } else if a == "--scroll-step"@ {
        match positive_int_spec(args, i, "--scroll-step"@) {
            Ok(n) => Ok(ConfigView { scroll_step: n as usize, ..c }),
            Err(m) => Err(m),
        }
    } else if is_config_flag(a) {
        if i + 1 >= args.len() {
            Err(missing_value_msg("--config"@))
        } else {
            Ok(c)
        }
    } else {
        Err("unknown flag '"@ + a + "'"@)
    }
}

/// Applies the flags from position `i` on to `c`, left to right, each
/// with its value; the first bad flag ends parsing with its error.
pub open spec fn flags_from(args: Seq<Seq<char>>, i: int, c: ConfigView) -> Result<
    ConfigView,
    Seq<char>,
>
    decreases args.len() + 1 - i,
{
    if i < 0 || i >= args.len() {
        Ok(c)
    } else {
        match flag_step(args, i, c) {
            Ok(n) => flags_from(args, i + flag_width(args[i]), n),
            Err(m) => Err(m),
        }
    }
}

/// The result of the flags from position `i` on, applied to `c`.
pub open spec fn apply_flags(args: Seq<Seq<char>>, i: int, c: ConfigView) -> CliActionView {
    match flags_from(args, i, c) {
        Ok(r) => CliActionView::Config(finish_config(r)),
        Err(m) => CliActionView::Error(m),
    }
}

/// Whether a flag stands at position `k` when the flags from position `i`
/// on are read in turn, each with its value.
pub open spec fn at_flag(args: Seq<Seq<char>>, i: int, k: int) -> bool
    decreases k + 1 - i,
{
    if i == k {
        true
    } else if i < 0 || i > k || i >= args.len() {
        false
    } else {
        at_flag(args, i + flag_width(args[i]), k)
    }
}

/// Whether a flag named `short` or `long` stands at position `i` or at a
/// later flag position.
pub open spec fn flag_later(args: Seq<Seq<char>>, i: int, short: Seq<char>, long: Seq<char>) -> bool
    decreases args.len() + 1 - i,
{
    if i < 0 || i >= args.len() {
        false
    } else {
        args[i] == short || args[i] == long || flag_later(
            args,
            i + flag_width(args[i]),
            short,
            long,
        )
    }
}

/// What the arguments ask for: help or the version if any argument asks
/// for them (the first such argument decides); otherwise the configuration
/// from the file (see `resolve_config_spec`) with the flags applied.
pub open spec fn parse_args_spec(args: Seq<Seq<char>>, load: ConfigLoadView) -> CliActionView {
    match info_flag_from(args, 0) {
        Some(true) => CliActionView::Help,
        Some(false) => CliActionView::Version,
        None => match resolve_config_spec(config_path_spec(args), load) {
            Err(e) => e,
            Ok(c) => apply_flags(args, 0, c),
        },
    }
}

// ── Parsing ─────────────────────────────────────────────────────────────

/// `a + b + c` as a new string.
fn join3(a: &str, b: &str, c: &str) -> (r: String)
    ensures
        r@ == a@ + b@ + c@,
{
    let mut r = String::new();
    r.append(a);
    r.append(b);
    r.append(c);
    r
}

/// `a + b` as a new string.
fn join2(a: &str, b: &str) -> (r: String)
    ensures
        r@ == a@ + b@,
{
    let mut r = String::new();
    r.append(a);
    r.append(b);
    r
}

/// The argument after the first `--config` or `-c`, when there is one.
pub fn config_path_arg(args: &[String]) -> (r: Option<&str>)
    ensures
        match r {
            Some(p) => config_path_spec(arg_texts(args@)) == Some(p@),
            None => config_path_spec(arg_texts(args@)) is None,
        },
{
    let ghost texts = arg_texts(args@);
    let mut i: usize = 0;
    while i < args.len()
        invariant
            texts == arg_texts(args@),
            i <= args.len(),
            config_flag_from(texts, 0) == config_flag_from(texts, i as int),
        decreases args.len() - i,
    {
        let a = args[i].as_str();
        if same_text(a, "--config") || same_text(a, "-c") {
            if i + 1 < args.len() {
                return Some(args[i + 1].as_str());
            } else {
                return None;
            }
        }
        i = i + 1;
    }
    None
}

/// Whether any argument asks for help or the version, and which comes first.
fn info_flag(args: &[String]) -> (r: Option<bool>)
    ensures
        r == info_flag_from(arg_texts(args@), 0),
{
    let ghost texts = arg_texts(args@);
    let mut i: usize = 0;
    while i < args.len()
        invariant
            texts == arg_texts(args@),
            i <= args.len(),
            info_flag_from(texts, 0) == info_flag_from(texts, i as int),
        decreases args.len() - i,
    {
        let a = args[i].as_str();
        if same_text(a, "--help") || same_text(a, "-h") {
            return Some(true);
        }
        if same_text(a, "--version") || same_text(a, "-V") {
            return Some(false);
        }
        i = i + 1;
    }
    None
}

/// The starting configuration (see `resolve_config_spec`).
fn resolve_config(path: Option<&str>, load: ConfigLoad) -> (r: Result<Config, CliAction>)
    ensures
        match r {
            Ok(c) => resolve_config_spec(
                match path {
                    Some(p) => Some(p@),
                    None => None,
                },
                load@,
            ) == Ok::<ConfigView, CliActionView>(c@),
            Err(e) => resolve_config_spec(
                match path {
                    Some(p) => Some(p@),
                    None => None,
                },
                load@,
            ) == Err::<ConfigView, CliActionView>(e@),
        },
{
    match path {
        Some(p) => match load {
            ConfigLoad::Missing => Err(CliAction::Error(join3("config file '", p, "' not found"))),
            ConfigLoad::Failed(m) => Err(CliAction::Error(m)),
            ConfigLoad::Loaded(c) => Ok(c),
            ConfigLoad::NoFile => Ok(Config::default()),
        },
        None => match load {
            ConfigLoad::Loaded(c) => Ok(c),
            ConfigLoad::Failed(m) => {
                let mut c = Config::default();
                c.config_warning = Some(m);
                assert(c@ =~= ConfigView { config_warning: Some(m@), ..default_config() });
                Ok(c)
            },
            _ => Ok(Config::default()),
        },
    }
}

/// The tab that `name` names, ignoring ASCII case.
fn parse_tab_name(name: &str) -> (r: Option<Tab>)
    ensures
        r == tab_name_spec(name@),
{
    if lower_equals(name, "dash") {
        Some(Tab::Dash)
    } else if lower_equals(name, "proc") {
        Some(Tab::Proc)
    } else if lower_equals(name, "net") {
        Some(Tab::Net)
    } else if lower_equals(name, "files") {
        Some(Tab::Files)
    } else if lower_equals(name, "time") {
        Some(Tab::Time)
    } else if lower_equals(name, "temp") {
        Some(Tab::Temp)
    } else if lower_equals(name, "cores") {
        Some(Tab::Cores)
    } else if lower_equals(name, "disk") {
        Some(Tab::Disk)
    } else if lower_equals(name, "mem") {
        Some(Tab::Mem)
    } else {
        None
    }
}

/// The orientation that `name` names, ignoring ASCII case.
fn parse_tab_orientation(name: &str) -> (r: Option<TabOrientation>)
    ensures
        r == orientation_name_spec(name@),
{
    if lower_equals(name, "sidebar") {
        Some(TabOrientation::Sidebar)
    } else if lower_equals(name, "horizontal") {
        Some(TabOrientation::Horizontal)
    } else if lower_equals(name, "horizontal_footer") {
        Some(TabOrientation::HorizontalFooter)
    } else {
        None
    }
}

/// The positive integer after the flag at position `i`.
fn parse_positive_int(args: &[String], flag: &str, i: usize) -> (r: Result<u64, String>)
    requires
        i < args.len(),
    ensures
        match r {
            Ok(n) => positive_int_spec(arg_texts(args@), i as int, flag@) == Ok::<u64, Seq<char>>(n),
            Err(m) => positive_int_spec(arg_texts(args@), i as int, flag@) == Err::<u64, Seq<char>>(m@),
        },
{
    if i + 1 >= args.len() {
        return Err(join2(flag, " requires a value"));
    }
    assert(arg_texts(args@)[i + 1] == args@[i + 1]@);
    match parse_u64(args[i + 1].as_str()) {
        Some(n) => if n > 0 {
            Ok(n)
        } else {
            Err(join2(flag, " must be a positive integer"))
        },
        None => Err(join2(flag, " must be a positive integer")),
    }
}

/// Decides what the program does from its arguments `args` (without the
/// program name) and from `load`, what reading the configuration file
/// named by `config_path_arg(args)` (or the default file when none is
/// named) gave. See `parse_args_spec`.
pub fn parse_args(args: &[String], load: ConfigLoad) -> (r: CliAction)
    ensures
        r@ == parse_args_spec(arg_texts(args@), load@),
{
    match info_flag(args) {
        Some(true) => {
            return CliAction::Help;
        },
        Some(false) => {
            return CliAction::Version;
        },
        None => {},
    }
    let path = config_path_arg(args);
    let mut cfg = match resolve_config(path, load) {
        Ok(c) => c,
        Err(e) => {
            return e;
        },
    };
    let ghost texts = arg_texts(args@);
    let ghost start = cfg@;
    let ghost goal = flags_from(texts, 0, cfg@);
    let mut i: usize = 0;
    while i < args.len()
        invariant
            texts == arg_texts(args@),
            i <= args.len(),
            goal == flags_from(texts, i as int, cfg@),
            parse_args_spec(texts, load@) == apply_flags(texts, 0, start),
            apply_flags(texts, 0, start) == match goal {
                Ok(r) => CliActionView::Config(finish_config(r)),
                Err(m) => CliActionView::Error(m),
            },
        decreases args.len() - i,
    {
        proof {
            lemma_flag_names_distinct();
        }
        let a = args[i].as_str();
        assert(texts[i as int] == a@);
        if same_text(a, "-r") || same_text(a, "--refresh") {
            match parse_positive_int(args, "--refresh", i) {
                Ok(n) => {
                    cfg.refresh_ms = n;
                    i = i + 2;
                },
                Err(m) => {
                    return CliAction::Error(m);
                },
            }
        } else if same_text(a, "-t") || same_text(a, "--tab") {
            if i + 1 >= args.len() {
                return CliAction::Error(join2("--tab", " requires a value"));
            }
            let name = args[i + 1].as_str();
            assert(texts[i + 1] == name@);
            match parse_tab_name(name) {
                Some(t) => {
                    cfg.default_tab = t;
                    i = i + 2;
                },
                None => {
                    return CliAction::Error(join3("unknown tab '", name, "'"));
                },
            }
        } else if same_text(a, "-s") || same_text(a, "--no-sidebar") {
            cfg.hide_sidebar = true;
            i = i + 1;
        } else if same_text(a, "--tabs") {
            if i + 1 >= args.len() {
                return CliAction::Error(join2("--tabs", " requires a value"));
            }
            let val = args[i + 1].as_str();
            assert(texts[i + 1] == val@);
            match parse_tab_orientation(val) {
                Some(o) => {
                    cfg.tab_orientation = o;
                    i = i + 2;
                },
                None => {
                    return CliAction::Error(
                        "--tabs must be 'sidebar', 'horizontal', or 'horizontal_footer'".to_owned(),
                    );
                },
            }
        } else if same_text(a, "--scroll-step") {
            match parse_positive_int(args, "--scroll-step", i) {
                Ok(n) => {
                    cfg.scroll_step = n as usize;
                    i = i + 2;
                },
                Err(m) => {
                    return CliAction::Error(m);
                },
            }
        } else if same_text(a, "-c") || same_text(a, "--config") {
            if i + 1 >= args.len() {
                return CliAction::Error(join2("--config", " requires a value"));
            }
            i = i + 2;
        } else {
            return CliAction::Error(join3("unknown flag '", a, "'"));
        }
    }
    let ghost before = cfg@;
    if cfg.refresh_ms == 0 {
        cfg.refresh_ms = 1000;
    }
    assert(cfg@ =~= finish_config(before));
    CliAction::Config(cfg)
}

// ── Laws of argument parsing ────────────────────────────────────────────

/// The flag names that `flag_step` tells apart are different.
proof fn lemma_flag_names_distinct()
    ensures
        "-t"@ != "-r"@,
        "-s"@ != "-r"@,
        "-s"@ != "-t"@,
        "--tab"@ != "--refresh"@,
        "--no-sidebar"@ != "--refresh"@,
        "--no-sidebar"@ != "--tab"@,
        "-t"@ != "--refresh"@,
        "-s"@ != "--refresh"@,
        "-s"@ != "--tab"@,
        "--tab"@ != "-r"@,
        "--no-sidebar"@ != "-r"@,
        "--no-sidebar"@ != "-t"@,
        "--tabs"@ != "-r"@ && "--tabs"@ != "--refresh"@ && "--tabs"@ != "-t"@,
        "--tabs"@ != "--tab"@ && "--tabs"@ != "-s"@ && "--tabs"@ != "--no-sidebar"@,
        "--scroll-step"@ != "-r"@ && "--scroll-step"@ != "--refresh"@,
        "--scroll-step"@ != "-t"@ && "--scroll-step"@ != "--tab"@,
        "--scroll-step"@ != "-s"@ && "--scroll-step"@ != "--no-sidebar"@,
        "--scroll-step"@ != "--tabs"@,
        "-c"@ != "-s"@ && "-c"@ != "--no-sidebar"@,
        "--config"@ != "-s"@ && "--config"@ != "--no-sidebar"@,
{
    reveal_strlit("-r");
    reveal_strlit("--refresh");
    reveal_strlit("-t");
    reveal_strlit("--tab");
    reveal_strlit("-s");
    reveal_strlit("--no-sidebar");
    reveal_strlit("--tabs");
    reveal_strlit("--scroll-step");
    reveal_strlit("-c");
    reveal_strlit("--config");
    assert("-t"@[1] != "-r"@[1]);
    assert("-s"@[1] != "-r"@[1]);
    assert("-s"@[1] != "-t"@[1]);
    assert("-c"@[1] != "-s"@[1]);
    assert("--tab"@.len() != "--refresh"@.len());
    assert("--no-sidebar"@.len() != "--refresh"@.len());
    assert("--no-sidebar"@.len() != "--tab"@.len());
    assert("-t"@.len() != "--refresh"@.len());
    assert("-s"@.len() != "--refresh"@.len());
    assert("-s"@.len() != "--tab"@.len());
    assert("--tab"@.len() != "-r"@.len());
    assert("--no-sidebar"@.len() != "-r"@.len());
    assert("--no-sidebar"@.len() != "-t"@.len());
    assert("--scroll-step"@.len() != "--tabs"@.len());
    assert("--config"@.len() != "--no-sidebar"@.len());
    assert("--config"@[2] != "-s"@[1] || "--config"@.len() != "-s"@.len());
}

/// The configuration that the flags from position `i` have built when
/// reading reaches position `k`.
spec fn config_at(args: Seq<Seq<char>>, i: int, k: int, c: ConfigView) -> ConfigView
    decreases k + 1 - i,
{
    if i < 0 || i >= k || i >= args.len() {
        c
    } else {
        match flag_step(args, i, c) {
            Ok(n) => config_at(args, i + flag_width(args[i]), k, n),
            Err(_) => c,
        }
    }
}

/// Reading the flags from `i` passes through every flag position `k` on
/// the way, with the configuration built so far.
proof fn lemma_flags_pass(args: Seq<Seq<char>>, i: int, k: int, c: ConfigView)
    requires
        0 <= i,
        at_flag(args, i, k),
        flags_from(args, i, c) is Ok,
    ensures
        flags_from(args, k, config_at(args, i, k, c)) == flags_from(args, i, c),
    decreases k + 1 - i,
{
    if i != k {
        let n = flag_step(args, i, c)->Ok_0;
        lemma_flags_pass(args, i + flag_width(args[i]), k, n);
    }
}

/// A field keeps its value through the flags from `i` on unless a flag
/// that sets it stands there; the sort order, history window and warning
/// are kept whatever the flags, and a hidden sidebar stays hidden.
proof fn lemma_flags_keep(args: Seq<Seq<char>>, i: int, c: ConfigView)
    requires
        0 <= i,
        flags_from(args, i, c) is Ok,
    ensures
        ({
            let r = flags_from(args, i, c)->Ok_0;
            &&& !flag_later(args, i, "-r"@, "--refresh"@) ==> r.refresh_ms == c.refresh_ms
            &&& !flag_later(args, i, "-t"@, "--tab"@) ==> r.default_tab == c.default_tab
            &&& !flag_later(args, i, "-s"@, "--no-sidebar"@) ==> r.hide_sidebar == c.hide_sidebar
            &&& c.hide_sidebar ==> r.hide_sidebar
            &&& !flag_later(args, i, "--tabs"@, "--tabs"@) ==> r.tab_orientation == c.tab_orientation
            &&& !flag_later(args, i, "--scroll-step"@, "--scroll-step"@) ==> r.scroll_step
                == c.scroll_step
            &&& r.proc_sort_default == c.proc_sort_default
            &&& r.proc_sort_asc_default == c.proc_sort_asc_default
            &&& r.history_window == c.history_window
            &&& r.config_warning == c.config_warning
        }),
    decreases args.len() + 1 - i,
{
    if i < args.len() {
        lemma_flag_names_distinct();
        let n = flag_step(args, i, c)->Ok_0;
        lemma_flags_keep(args, i + flag_width(args[i]), n);
    }
}

/// Command-line flags override the configuration file, wherever they stand:
/// in a successful parse, the last `--tab`, `--refresh`, `--tabs` or
/// `--scroll-step` flag (short forms included) sets its field to its value,
/// and any `--no-sidebar` hides the sidebar.
pub proof fn lemma_last_flag_sets_field(args: Seq<Seq<char>>, k: int, load: ConfigLoadView)
    requires
        at_flag(args, 0, k),
        0 <= k < args.len(),
        parse_args_spec(args, load) is Config,
    ensures
        ({
            let r = parse_args_spec(args, load)->Config_0;
            &&& is_tab_flag(args[k]) && !flag_later(args, k + 2, "-t"@, "--tab"@) ==> tab_name_spec(
                args[k + 1],
            ) == Some(r.default_tab)
            &&& is_refresh_flag(args[k]) && !flag_later(args, k + 2, "-r"@, "--refresh"@)
                ==> parse_u64_spec(args[k + 1]) == Some(r.refresh_ms)
            &&& is_sidebar_flag(args[k]) ==> r.hide_sidebar
            &&& args[k] == "--tabs"@ && !flag_later(args, k + 2, "--tabs"@, "--tabs"@)
                ==> orientation_name_spec(args[k + 1]) == Some(r.tab_orientation)
            &&& args[k] == "--scroll-step"@ && !flag_later(
                args,
                k + 2,
                "--scroll-step"@,
                "--scroll-step"@,
            ) ==> parse_u64_spec(args[k + 1]) is Some && r.scroll_step == parse_u64_spec(
                args[k + 1],
            )->0 as usize
        }),
{
    lemma_flag_names_distinct();
    let c = resolve_config_spec(config_path_spec(args), load)->Ok_0;
    lemma_flags_pass(args, 0, k, c);
    let ck = config_at(args, 0, k, c);
    let n = flag_step(args, k, ck)->Ok_0;
    lemma_flags_keep(args, k + flag_width(args[k]), n);
}

/// Fields that no flag sets keep the configuration file's values (a zero
/// refresh interval becoming 1000 ms); the sort order, history window and
/// any warning always come from the file.
pub proof fn lemma_unflagged_fields_keep_file(args: Seq<Seq<char>>, load: ConfigLoadView)
    requires
        parse_args_spec(args, load) is Config,
    ensures
        ({
            let r = parse_args_spec(args, load)->Config_0;
            let c = resolve_config_spec(config_path_spec(args), load)->Ok_0;
            &&& resolve_config_spec(config_path_spec(args), load) is Ok
            &&& !flag_later(args, 0, "-r"@, "--refresh"@) ==> r.refresh_ms == finish_config(
                c,
            ).refresh_ms
            &&& !flag_later(args, 0, "-t"@, "--tab"@) ==> r.default_tab == c.default_tab
            &&& !flag_later(args, 0, "-s"@, "--no-sidebar"@) ==> r.hide_sidebar == c.hide_sidebar
            &&& !flag_later(args, 0, "--tabs"@, "--tabs"@) ==> r.tab_orientation
                == c.tab_orientation
            &&& !flag_later(args, 0, "--scroll-step"@, "--scroll-step"@) ==> r.scroll_step
                == c.scroll_step
            &&& r.proc_sort_default == c.proc_sort_default
            &&& r.proc_sort_asc_default == c.proc_sort_asc_default
            &&& r.history_window == c.history_window
            &&& r.config_warning == c.config_warning
        }),
{
    let c = resolve_config_spec(config_path_spec(args), load)->Ok_0;
    lemma_flags_keep(args, 0, c);
}

/// Without flags the configuration is the file's, a zero refresh interval
/// becoming 1000 ms.
pub proof fn lemma_no_flags_keep_file(c: ConfigView)
    ensures
        apply_flags(seq![], 0, c) == CliActionView::Config(finish_config(c)),
{
}

/// An argument that asks for help or the version is found from any
/// earlier position.
proof fn lemma_info_flag_found(args: Seq<Seq<char>>, i: int, k: int)
    requires
        0 <= i <= k < args.len(),
        is_help_flag(args[k]) || is_version_flag(args[k]),
    ensures
        info_flag_from(args, i) is Some,
    decreases k - i,
{
    if !is_help_flag(args[i]) && !is_version_flag(args[i]) {
        lemma_info_flag_found(args, i + 1, k);
    }
}

/// An argument asking for help or the version wins over everything else:
/// whatever the other arguments and the configuration file, the result is
/// help or the version, never an error or a configuration.
pub proof fn lemma_info_flag_wins(args: Seq<Seq<char>>, k: int, load: ConfigLoadView)
    requires
        0 <= k < args.len(),
        is_help_flag(args[k]) || is_version_flag(args[k]),
    ensures
        parse_args_spec(args, load) is Help || parse_args_spec(args, load) is Version,
{
    lemma_info_flag_found(args, 0, k);
}

} // verus!
