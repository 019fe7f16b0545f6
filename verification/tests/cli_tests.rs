use pf_sandbox::cli::{backend_named, cli, cli_decide, parse_args, parse_failed, usage_text, CLIResults, CliArgs, CliOutput, ContinueFrom, GraphicsBackendChoice};
use pf_sandbox::legacy::{engine_cli, CLIChoice, EngineCliArgs};

fn args() -> CliArgs {
    CliArgs {
        list: false,
        free: vec![],
        human_players: None,
        cpu_players: None,
        fighters: None,
        stage: None,
        address: None,
        address_is_ip: false,
        graphics: None,
        netplay_players: None,
        netplay_region: None,
    }
}

#[test]
fn no_arguments_open_the_menu() {
    let (r, out) = cli(&args());
    assert_eq!(out, CliOutput::Nothing);
    assert_eq!(r.continue_from, ContinueFrom::Menu);
    assert_eq!(r.graphics_backend, GraphicsBackendChoice::Default);
    assert!(r.package.is_none() && r.fighter_names.is_empty());
    let fresh = CLIResults::new();
    assert_eq!(fresh.continue_from, ContinueFrom::Menu);
}

#[test]
fn listing_packages_closes() {
    let mut a = args();
    a.list = true;
    a.free = vec!["pkg".to_string()];
    let (r, out) = cli(&a);
    assert_eq!(out, CliOutput::PackageList);
    assert_eq!(r.continue_from, ContinueFrom::Close);
    assert!(r.package.is_none());
}

#[test]
fn game_options() {
    let mut a = args();
    a.free = vec!["base".to_string()];
    a.human_players = Some("2".to_string());
    a.cpu_players = Some("+1".to_string());
    a.fighters = Some("alpha,,beta".to_string());
    a.stage = Some("arena".to_string());
    let (r, out) = cli(&a);
    assert_eq!(out, CliOutput::Nothing);
    assert_eq!(r.continue_from, ContinueFrom::Game);
    assert_eq!(r.package, Some("base".to_string()));
    assert_eq!(r.max_human_players, Some(2));
    assert_eq!(r.total_cpu_players, Some(1));
    assert_eq!(r.fighter_names, vec!["alpha".to_string(), "".to_string(), "beta".to_string()]);
    assert_eq!(r.stage_name, Some("arena".to_string()));
}

#[test]
fn two_packages_are_rejected() {
    let mut a = args();
    a.free = vec!["a".to_string(), "b".to_string()];
    let (r, out) = cli(&a);
    assert_eq!(out, CliOutput::Usage);
    assert_eq!(r.continue_from, ContinueFrom::Close);
}

#[test]
fn a_bad_number_keeps_what_was_read_before() {
    let mut a = args();
    a.free = vec!["base".to_string()];
    a.human_players = Some("3".to_string());
    a.cpu_players = Some("many".to_string());
    a.stage = Some("arena".to_string());
    let (r, out) = cli(&a);
    assert_eq!(out, CliOutput::Usage);
    assert_eq!(r.continue_from, ContinueFrom::Close);
    assert_eq!(r.package, Some("base".to_string()));
    assert_eq!(r.max_human_players, Some(3));
    assert_eq!(r.total_cpu_players, None);
    assert_eq!(r.stage_name, None);
}

#[test]
fn netplay_options() {
    let mut a = args();
    a.address = Some("127.0.0.1".to_string());
    a.address_is_ip = true;
    let (r, _) = cli(&a);
    assert_eq!(r.continue_from, ContinueFrom::Netplay);
    assert_eq!(r.address, Some("127.0.0.1".to_string()));

    a.address_is_ip = false;
    let (r, out) = cli(&a);
    assert_eq!((r.continue_from, out), (ContinueFrom::Close, CliOutput::Usage));
    assert_eq!(r.address, None);

    let mut a = args();
    a.netplay_players = Some("4".to_string());
    a.netplay_region = Some("eu".to_string());
    let (r, _) = cli(&a);
    assert_eq!(r.continue_from, ContinueFrom::MatchMaking);
    assert_eq!(r.netplay_players, Some(4));
    assert_eq!(r.netplay_region, Some("eu".to_string()));

    let mut a = args();
    a.netplay_players = Some("300".to_string());
    let (r, out) = cli(&a);
    assert_eq!((r.continue_from, out), (ContinueFrom::Close, CliOutput::Usage));
}

#[test]
fn graphics_backend_is_case_insensitive() {
    let mut a = args();
    a.graphics = Some("NoNe".to_string());
    let (r, out) = cli(&a);
    assert_eq!(out, CliOutput::Nothing);
    assert_eq!(r.graphics_backend, GraphicsBackendChoice::Headless);
    assert_eq!(r.continue_from, ContinueFrom::Menu);

    a.graphics = Some("vulkan".to_string());
    let (r, out) = cli(&a);
    assert_eq!((r.continue_from, out), (ContinueFrom::Close, CliOutput::Usage));

    assert_eq!(backend_named("none"), Some(GraphicsBackendChoice::Headless));
    assert_eq!(backend_named("None"), None);
    let (r, _) = cli_decide(&args(), Some("none".to_string()));
    assert_eq!(r.graphics_backend, GraphicsBackendChoice::Headless);
}

fn engine_args() -> EngineCliArgs {
    EngineCliArgs {
        list: false,
        free: vec!["pkg".to_string()],
        players: None,
        fighter_indexes: None,
        fighter_names: None,
        stage_index: None,
        stage_name: None,
    }
}

#[test]
fn engine_command_line() {
    let mut a = engine_args();
    a.players = Some("4".to_string());
    a.fighter_indexes = Some("0,2".to_string());
    a.fighter_names = Some("x,y".to_string());
    a.stage_index = Some("bad".to_string());
    a.stage_name = Some("s".to_string());
    let (c, out) = engine_cli(&a);
    assert_eq!(out, CliOutput::Nothing);
    assert_eq!(c.len(), 5);
    assert!(matches!(c[0], CLIChoice::TotalPlayers(4)));
    match &c[1] {
        CLIChoice::FighterIndexes(v) => assert_eq!(v, &vec![0, 2]),
        _ => panic!("expected fighter indexes"),
    }
    match &c[2] {
        CLIChoice::FighterNames(v) => assert_eq!(v, &vec!["x".to_string(), "y".to_string()]),
        _ => panic!("expected fighter names"),
    }
    match &c[3] {
        CLIChoice::StageName(s) => assert_eq!(s, "s"),
        _ => panic!("expected a stage name"),
    }
    match &c[4] {
        CLIChoice::Package(s) => assert_eq!(s, "pkg"),
        _ => panic!("expected the package"),
    }

    let mut a = engine_args();
    a.fighter_indexes = Some("1,x".to_string());
    let (c, out) = engine_cli(&a);
    assert_eq!(out, CliOutput::Usage);
    assert_eq!(c.len(), 1);
    assert!(matches!(c[0], CLIChoice::Close));

    let mut a = engine_args();
    a.free = vec![];
    let (c, out) = engine_cli(&a);
    assert_eq!(out, CliOutput::Usage);
    assert!(matches!(c[0], CLIChoice::Close));

    let mut a = engine_args();
    a.list = true;
    let (c, out) = engine_cli(&a);
    assert_eq!(out, CliOutput::PackageList);
    assert_eq!(c.len(), 1);
}

fn strings(v: &[&str]) -> Vec<String> {
    v.iter().map(|s| s.to_string()).collect()
}

#[test]
fn getopts_reads_the_arguments() {
    let a = parse_args(&strings(&["prog", "-l"])).unwrap();
    assert!(a.list);
    assert!(a.free.is_empty());
    let a = parse_args(&strings(&["prog", "-h", "2", "pkg", "--stage", "dk", "-g", "NONE"])).unwrap();
    assert!(!a.list);
    assert_eq!(a.free, vec!["pkg".to_string()]);
    assert_eq!(a.human_players, Some("2".to_string()));
    assert_eq!(a.stage, Some("dk".to_string()));
    assert_eq!(a.graphics, Some("NONE".to_string()));
    assert_eq!(a.cpu_players, None);
    assert!(!a.address_is_ip);
    let (r, out) = cli(&a);
    assert_eq!(out, CliOutput::Nothing);
    assert_eq!(r.continue_from, ContinueFrom::Game);
    assert_eq!(r.graphics_backend, GraphicsBackendChoice::Headless);
    assert_eq!(r.max_human_players, Some(2));
}

#[test]
fn getopts_refusals_close_with_the_usage() {
    assert!(parse_args(&strings(&["prog", "-x"])).is_none());
    assert!(parse_args(&strings(&["prog", "-s"])).is_none());
    let (r, out) = parse_failed();
    assert_eq!(out, CliOutput::Usage);
    assert_eq!(r.continue_from, ContinueFrom::Close);
    let u = usage_text("prog");
    assert!(u.starts_with("Usage: prog [options] [package_dir]\nIf no arguments are given the GUI menu is used instead. (excluding -g)"));
    assert!(u.contains("-l, --list"));
    assert!(u.contains("--netplayregion REGION"));
}
