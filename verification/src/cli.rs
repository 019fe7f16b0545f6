//! What the command line asks the game to do: the arguments are read with
//! getopts, then the options decide where the game starts. Whether an
//! address is an IP address is checked by the caller.

use vstd::prelude::*;
use crate::text::{chars_of, extend_chars, split_chars, string_from_chars};

verus! {

/// Where the game goes after reading the command line.
#[derive(Clone, Copy, Debug, PartialEq, Eq, Structural)]
pub enum ContinueFrom {
    Menu,
    Netplay,
    MatchMaking,
    Game,
    Close,
}

/// The graphics backend the command line asks for.
#[derive(Clone, Copy, Debug, PartialEq, Eq, Structural)]
pub enum GraphicsBackendChoice {
    Headless,
    Default,
}

/// What the caller prints besides starting the game.
#[derive(Clone, Copy, Debug, PartialEq, Eq, Structural)]
pub enum CliOutput {
    Nothing,
    /// The usage text: the arguments were not understood.
    Usage,
    /// The list of available packages.
    PackageList,
}

/// The options found on the command line, as text.
pub struct CliArgs {
    /// `-l`: list the packages and close.
    pub list: bool,
    /// The arguments that belong to no option: at most one package name.
    pub free: Vec<String>,
    /// `-h`: the number of human players.
    pub human_players: Option<String>,
    /// `-c`: the number of CPU players.
    pub cpu_players: Option<String>,
    /// `-f`: fighter names separated by commas.
    pub fighters: Option<String>,
    /// `-s`: the stage name.
    pub stage: Option<String>,
    /// `-a`: the address of the netplay peer.
    pub address: Option<String>,
    /// Whether `address` is an IP address.
    pub address_is_ip: bool,
    /// `-g`: the graphics backend.
    pub graphics: Option<String>,
    /// `-n`: the number of players to find for netplay.
    pub netplay_players: Option<String>,
    /// `-r`: the netplay region.
    pub netplay_region: Option<String>,
}

/// What the command line decided.
pub struct CLIResults {
    pub graphics_backend: GraphicsBackendChoice,
    pub package: Option<String>,
    pub max_human_players: Option<usize>,
    pub total_cpu_players: Option<usize>,
    pub fighter_names: Vec<String>,
    pub stage_name: Option<String>,
    /// The netplay peer's address; it is an IP address.
    pub address: Option<String>,
    pub continue_from: ContinueFrom,
    pub netplay_players: Option<u8>,
    pub netplay_region: Option<String>,
}

/// What the command line decided, as values.
pub struct CliView {
    pub graphics_backend: GraphicsBackendChoice,
    pub package: Option<Seq<char>>,
    pub max_human_players: Option<usize>,
    pub total_cpu_players: Option<usize>,
    pub fighter_names: Seq<Seq<char>>,
    pub stage_name: Option<Seq<char>>,
    pub address: Option<Seq<char>>,
    pub continue_from: ContinueFrom,
    pub netplay_players: Option<u8>,
    pub netplay_region: Option<Seq<char>>,
}

/// An optional string as an optional sequence of characters.
pub open spec fn opt_view(o: Option<String>) -> Option<Seq<char>> {
    match o {
        Some(s) => Some(s@),
        None => None,
    }
}

impl View for CLIResults {
    type V = CliView;

    open spec fn view(&self) -> CliView {
        CliView {
            graphics_backend: self.graphics_backend,
            package: opt_view(self.package),
            max_human_players: self.max_human_players,
            total_cpu_players: self.total_cpu_players,
            fighter_names: self.fighter_names@.map_values(|s: String| s@),
            stage_name: opt_view(self.stage_name),
            address: opt_view(self.address),
            continue_from: self.continue_from,
            netplay_players: self.netplay_players,
            netplay_region: opt_view(self.netplay_region),
        }
    }
}

/// The decisions before any option is read.
pub open spec fn initial_results() -> CliView {
    CliView {
        graphics_backend: GraphicsBackendChoice::Default,
        package: None,
        max_human_players: None,
        total_cpu_players: None,
        fighter_names: seq![],
        stage_name: None,
        address: None,
        continue_from: ContinueFrom::Menu,
        netplay_players: None,
        netplay_region: None,
    }
}

impl CLIResults {
    /// The decisions before any option is read: the menu, with the default
    /// backend and nothing chosen.
    pub fn new() -> (r: CLIResults)
        ensures
            r@ == initial_results(),
    {
        let r = CLIResults {
            graphics_backend: GraphicsBackendChoice::Default,
            package: None,
            max_human_players: None,
            total_cpu_players: None,
            fighter_names: Vec::new(),
            stage_name: None,
            address: None,
            continue_from: ContinueFrom::Menu,
            netplay_players: None,
            netplay_region: None,
        };
        assert(r@.fighter_names =~= Seq::<Seq<char>>::empty());
        r
    }
}

/// A flag of the command line: short name, long name, description.
pub type FlagView = (Seq<char>, Seq<char>, Seq<char>);

/// An option that takes a value: short name, long name, description, and
/// the hint shown for the value.
pub type OptView = (Seq<char>, Seq<char>, Seq<char>, Seq<char>);

/// What getopts makes of the arguments `args` (the program's name left out)
/// for the flags and options given: `None` when it refuses them, else the
/// free arguments, whether each flag is present, and each option's value.
pub uninterp spec fn getopts_parse(flags: Seq<FlagView>, options: Seq<OptView>, args: Seq<Seq<char>>) -> Option<
    (Seq<Seq<char>>, Seq<bool>, Seq<Option<Seq<char>>>),
>;

/// The usage text getopts writes for the flags and options given, below
/// `brief`.
pub uninterp spec fn getopts_usage(flags: Seq<FlagView>, options: Seq<OptView>, brief: Seq<char>) -> Seq<char>;

/// Names that getopts accepts: a short name of one ASCII character, and a
/// long name that is empty or longer than one character.
pub open spec fn names_valid(short: Seq<char>, long: Seq<char>) -> bool {
    &&& short.len() == 1
    &&& (short[0] as int) < 128
    &&& (long.len() == 0 || long.len() >= 2)
}

pub open spec fn flags_view(f: Seq<(String, String, String)>) -> Seq<FlagView> {
    f.map_values(|x: (String, String, String)| (x.0@, x.1@, x.2@))
}

pub open spec fn options_view(o: Seq<(String, String, String, String)>) -> Seq<OptView> {
    o.map_values(|x: (String, String, String, String)| (x.0@, x.1@, x.2@, x.3@))
}

pub open spec fn strings_view(s: Seq<String>) -> Seq<Seq<char>> {
    s.map_values(|x: String| x@)
}

/// A parse result of getopts as values.
pub open spec fn parsed_view(r: Option<(Vec<String>, Vec<bool>, Vec<Option<String>>)>) -> Option<
    (Seq<Seq<char>>, Seq<bool>, Seq<Option<Seq<char>>>),
> {
    match r {
        Some(m) => Some((strings_view(m.0@), m.1@, m.2@.map_values(|x: Option<String>| opt_view(x)))),
        None => None,
    }
}

/// Whether every flag and option has names that getopts accepts.
pub open spec fn tables_valid(flags: Seq<FlagView>, options: Seq<OptView>) -> bool {
    &&& forall|i: int| 0 <= i < flags.len() ==> names_valid(#[trigger] flags[i].0, flags[i].1)
    &&& forall|i: int| 0 <= i < options.len() ==> names_valid(#[trigger] options[i].0, options[i].1)
}

/// `getopts::Options::parse`, after `optflag` for each flag and `optopt` for
/// each option: `None` for an `Err`, else `free`, then `opt_present` of each
/// flag's short name and `opt_str` of each option's short name. Claimed:
/// the result is `getopts_parse` of the tables and the arguments, with one
/// entry for each flag and each option.
#[verifier::external_body]
fn getopts_parse_exec(
    flags: &Vec<(String, String, String)>,
    options: &Vec<(String, String, String, String)>,
    args: &Vec<String>,
) -> (r: Option<(Vec<String>, Vec<bool>, Vec<Option<String>>)>)
    requires
        tables_valid(flags_view(flags@), options_view(options@)),
    ensures
        parsed_view(r) == getopts_parse(flags_view(flags@), options_view(options@), strings_view(args@)),
        r matches Some(m) ==> m.1@.len() == flags@.len() && m.2@.len() == options@.len(),
{
    let mut opts = getopts::Options::new();
    for f in flags.iter() {
        opts.optflag(&f.0, &f.1, &f.2);
    }
    for o in options.iter() {
        opts.optopt(&o.0, &o.1, &o.2, &o.3);
    }
    match opts.parse(args) {
        Ok(m) => Some((m.free.clone(), flags.iter().map(|f| m.opt_present(&f.0)).collect(), options.iter().map(|o| m.opt_str(&o.0)).collect())),
        Err(_) => None,
    }
}

/// `getopts::Options::usage` with `brief`, after `optflag` for each flag
/// and `optopt` for each option. Claimed: the text is `getopts_usage` of
/// the tables and `brief`.
#[verifier::external_body]
fn getopts_usage_exec(
    flags: &Vec<(String, String, String)>,
    options: &Vec<(String, String, String, String)>,
    brief: &str,
) -> (r: String)
    requires
        tables_valid(flags_view(flags@), options_view(options@)),
    ensures
        r@ == getopts_usage(flags_view(flags@), options_view(options@), brief@),
{
    let mut opts = getopts::Options::new();
    for f in flags.iter() {
        opts.optflag(&f.0, &f.1, &f.2);
    }
    for o in options.iter() {
        opts.optopt(&o.0, &o.1, &o.2, &o.3);
    }
    opts.usage(brief)
}

/// The flags of the game's command line.
pub open spec fn flag_table() -> Seq<FlagView> {
    seq![("l"@, "list"@, "List available packages and close"@)]
}

/// The options of the game's command line, in the order the usage text
/// lists them.
pub open spec fn option_table() -> Seq<OptView> {
    seq![
        ("s"@, "stage"@, "Use the stage specified"@, "NAME"@),
        ("f"@, "fighters"@, "Use the fighters specified"@, "NAME1,NAME2,NAME3..."@),
        ("h"@, "humanplayers"@, "Number of human players in the game"@, "NUM_HUMAN_PLAYERS"@),
        ("c"@, "cpuplayers"@, "Number of CPU players in the game"@, "NUM_CPU_PLAYERS"@),
        ("a"@, "address"@, "IP Address of other client to start netplay with"@, "IP_ADDRESS"@),
        ("n"@, "netplayplayers"@, "Search for a netplay game with the specified number of players"@, "NUM_PLAYERS"@),
        ("r"@, "netplayregion"@, "Search for a netplay game with the specified region"@, "REGION"@),
        ("g"@, "graphics"@, "Graphics backend to use"@, "[none]"@),
    ]
}

fn text(s: &str) -> (r: String)
    ensures
        r@ == s@,
{
    string_from_chars(&chars_of(s))
}

fn flags() -> (f: Vec<(String, String, String)>)
    ensures
        flags_view(f@) == flag_table(),
        tables_valid(flag_table(), option_table()),
{
    let mut f = Vec::new();
    f.push((text("l"), text("list"), text("List available packages and close")));
    proof {
        reveal_strlit("l");
        reveal_strlit("list");
        reveal_strlit("s");
        reveal_strlit("stage");
        reveal_strlit("f");
        reveal_strlit("fighters");
        reveal_strlit("h");
        reveal_strlit("humanplayers");
        reveal_strlit("c");
        reveal_strlit("cpuplayers");
        reveal_strlit("a");
        reveal_strlit("address");
        reveal_strlit("n");
        reveal_strlit("netplayplayers");
        reveal_strlit("r");
        reveal_strlit("netplayregion");
        reveal_strlit("g");
        reveal_strlit("graphics");
        assert(flags_view(f@) =~= flag_table());
    }
    f
}

fn options() -> (o: Vec<(String, String, String, String)>)
    ensures
        options_view(o@) == option_table(),
{
    let mut o = Vec::new();
    o.push((text("s"), text("stage"), text("Use the stage specified"), text("NAME")));
    o.push((text("f"), text("fighters"), text("Use the fighters specified"), text("NAME1,NAME2,NAME3...")));
    o.push((text("h"), text("humanplayers"), text("Number of human players in the game"), text("NUM_HUMAN_PLAYERS")));
    o.push((text("c"), text("cpuplayers"), text("Number of CPU players in the game"), text("NUM_CPU_PLAYERS")));
    o.push((text("a"), text("address"), text("IP Address of other client to start netplay with"), text("IP_ADDRESS")));
    o.push((text("n"), text("netplayplayers"), text("Search for a netplay game with the specified number of players"), text("NUM_PLAYERS")));
    o.push((text("r"), text("netplayregion"), text("Search for a netplay game with the specified region"), text("REGION")));
    o.push((text("g"), text("graphics"), text("Graphics backend to use"), text("[none]")));
    assert(options_view(o@) =~= option_table());
    o
}

/// The options that getopts found in `args` (the program's name first), as
/// the decisions read them; `None` when getopts refuses the arguments. The
/// address is not yet known to be an IP address.
pub fn parse_args(args: &Vec<String>) -> (r: Option<CliArgs>)
    requires
        args@.len() >= 1,
    ensures
        match getopts_parse(flag_table(), option_table(), strings_view(args@.drop_first())) {
            None => r is None,
            Some(m) => r matches Some(a) && {
                &&& a.list == m.1[0]
                &&& strings_view(a.free@) == m.0
                &&& opt_view(a.stage) == m.2[0]
                &&& opt_view(a.fighters) == m.2[1]
                &&& opt_view(a.human_players) == m.2[2]
                &&& opt_view(a.cpu_players) == m.2[3]
                &&& opt_view(a.address) == m.2[4]
                &&& opt_view(a.netplay_players) == m.2[5]
                &&& opt_view(a.netplay_region) == m.2[6]
                &&& opt_view(a.graphics) == m.2[7]
                &&& !a.address_is_ip
            },
        },
{
    let f = flags();
    let o = options();
    assert(flags_view(f@).len() == f@.len());
    assert(options_view(o@).len() == o@.len());
    let mut rest: Vec<String> = Vec::new();
    let mut i: usize = 1;
    while i < args.len()
        invariant
            1 <= i <= args@.len(),
            rest@.len() == i - 1,
            forall|k: int| 0 <= k < rest@.len() ==> (#[trigger] rest@[k])@ == args@[k + 1]@,
        decreases args@.len() - i,
    {
        rest.push(copy_text(&args[i]));
        i = i + 1;
    }
    assert(strings_view(rest@) =~= strings_view(args@.drop_first()));
    match getopts_parse_exec(&f, &o, &rest) {
        None => None,
        Some(m) => {
            let (free, present, values) = m;
            Some(
                CliArgs {
                    list: present[0],
                    free,
                    human_players: copy_opt(&values[2]),
                    cpu_players: copy_opt(&values[3]),
                    fighters: copy_opt(&values[1]),
                    stage: copy_opt(&values[0]),
                    address: copy_opt(&values[4]),
                    address_is_ip: false,
                    graphics: copy_opt(&values[7]),
                    netplay_players: copy_opt(&values[5]),
                    netplay_region: copy_opt(&values[6]),
                },
            )
        },
    }
}

/// The first line of the usage text for the program `program`.
pub open spec fn usage_brief(program: Seq<char>) -> Seq<char> {
    "Usage: "@ + program
        + " [options] [package_dir]\nIf no arguments are given the GUI menu is used instead. (excluding -g)"@
}

/// The usage text printed when the arguments are not understood.
pub fn usage_text(program: &str) -> (u: String)
    ensures
        u@ == getopts_usage(flag_table(), option_table(), usage_brief(program@)),
{
    let f = flags();
    let o = options();
    let mut brief = chars_of("Usage: ");
    extend_chars(&mut brief, &chars_of(program));
    extend_chars(
        &mut brief,
        &chars_of(" [options] [package_dir]\nIf no arguments are given the GUI menu is used instead. (excluding -g)"),
    );
    let b = string_from_chars(&brief);
    getopts_usage_exec(&f, &o, b.as_str())
}

/// The decisions when getopts refuses the arguments: close, after printing
/// the usage text.
pub fn parse_failed() -> (r: (CLIResults, CliOutput))
    ensures
        (r.0@, r.1) == rejected(initial_results()),
{
    let mut results = CLIResults::new();
    results.continue_from = ContinueFrom::Close;
    (results, CliOutput::Usage)
}

/// The lowercase form of `s`, as the standard library's `str::to_lowercase`
/// gives it.
pub uninterp spec fn lowercase(s: Seq<char>) -> Seq<char>;

/// Calls `str::to_lowercase`. The contract names its result `lowercase`;
/// the Unicode case mapping it applies is not stated.
#[verifier::external_body]
fn to_lowercase(s: &str) -> (r: String)
    ensures
        r@ == lowercase(s@),
{
    s.to_lowercase()
}

/// The backend that a lowercased `-g` value names; `None` when it names
/// none that this build has.
pub open spec fn spec_backend_named(lower: Seq<char>) -> Option<GraphicsBackendChoice> {
    if lower == "none"@ {
        Some(GraphicsBackendChoice::Headless)
    } else {
        None
    }
}

/// The backend that the lowercased `-g` value `lower` names.
pub fn backend_named(lower: &str) -> (r: Option<GraphicsBackendChoice>)
    ensures
        r == spec_backend_named(lower@),
{
    if crate::text::str_eq(lower, "none") {
        Some(GraphicsBackendChoice::Headless)
    } else {
        None
    }
}

/// The decisions once the command line was found to be wrong.
pub open spec fn rejected(r: CliView) -> (CliView, CliOutput) {
    (CliView { continue_from: ContinueFrom::Close, ..r }, CliOutput::Usage)
}

/// Reads `-r` into `r`.
pub open spec fn outcome_region(a: CliArgs, r: CliView) -> (CliView, CliOutput) {
    match a.netplay_region {
        Some(s) => (
            CliView {
                netplay_region: Some(s@),
                continue_from: ContinueFrom::MatchMaking,
                ..r
            },
            CliOutput::Nothing,
        ),
        None => (r, CliOutput::Nothing),
    }
}

/// Reads `-n` and what follows it into `r`.
pub open spec fn outcome_netplay_players(a: CliArgs, r: CliView) -> (CliView, CliOutput) {
    match a.netplay_players {
        Some(s) => match crate::text::spec_parse_unsigned(s@, u8::MAX as int) {
            Some(v) => outcome_region(
                a,
                CliView {
                    netplay_players: Some(v as u8),
                    continue_from: ContinueFrom::MatchMaking,
                    ..r
                },
            ),
            None => rejected(r),
        },
        None => outcome_region(a, r),
    }
}

/// Reads `-g` (lowercased: `lower`) and what follows it into `r`.
pub open spec fn outcome_graphics(a: CliArgs, lower: Option<Seq<char>>, r: CliView) -> (
    CliView,
    CliOutput,
) {
    match lower {
        Some(l) => match spec_backend_named(l) {
            Some(b) => outcome_netplay_players(a, CliView { graphics_backend: b, ..r }),
            None => rejected(r),
        },
        None => outcome_netplay_players(a, r),
    }
}

/// Reads `-a` and what follows it into `r`.
pub open spec fn outcome_address(a: CliArgs, lower: Option<Seq<char>>, r: CliView) -> (
    CliView,
    CliOutput,
) {
    match a.address {
        Some(s) => if a.address_is_ip {
            outcome_graphics(
                a,
                lower,
                CliView { address: Some(s@), continue_from: ContinueFrom::Netplay, ..r },
            )
        } else {
            rejected(r)
        },
        None => outcome_graphics(a, lower, r),
    }
}

/// Reads `-f` and `-s` and what follows them into `r`.
pub open spec fn outcome_fighters(a: CliArgs, lower: Option<Seq<char>>, r: CliView) -> (
    CliView,
    CliOutput,
) {
    let r1 = match a.fighters {
        Some(f) => CliView {
            fighter_names: r.fighter_names + crate::text::split_on(f@, ','),
            continue_from: if crate::text::split_on(f@, ',').len() > 0 {
                ContinueFrom::Game
            } else {
                r.continue_from
            },
            ..r
        },
        None => r,
    };
    let r2 = match a.stage {
        Some(s) => CliView { stage_name: Some(s@), continue_from: ContinueFrom::Game, ..r1 },
        None => r1,
    };
    outcome_address(a, lower, r2)
}

/// Reads `-c` and what follows it into `r`.
pub open spec fn outcome_cpus(a: CliArgs, lower: Option<Seq<char>>, r: CliView) -> (
    CliView,
    CliOutput,
) {
    match a.cpu_players {
        Some(s) => match crate::text::spec_parse_unsigned(s@, usize::MAX as int) {
            Some(v) => outcome_fighters(
                a,
                lower,
                CliView {
                    total_cpu_players: Some(v as usize),
                    continue_from: ContinueFrom::Game,
                    ..r
                },
            ),
            None => rejected(r),
        },
        None => outcome_fighters(a, lower, r),
    }
}

/// Reads `-h` and what follows it into `r`.
pub open spec fn outcome_humans(a: CliArgs, lower: Option<Seq<char>>, r: CliView) -> (
    CliView,
    CliOutput,
) {
    match a.human_players {
        Some(s) => match crate::text::spec_parse_unsigned(s@, usize::MAX as int) {
            Some(v) => outcome_cpus(
                a,
                lower,
                CliView {
                    max_human_players: Some(v as usize),
                    continue_from: ContinueFrom::Game,
                    ..r
                },
            ),
            None => rejected(r),
        },
        None => outcome_cpus(a, lower, r),
    }
}

/// The decisions for the options `a`, whose `-g` value lowercases to
/// `lower`. Options are read in a fixed order; the first one that is wrong
/// closes the game with the usage text, keeping what was read before it.
pub open spec fn cli_outcome(a: CliArgs, lower: Option<Seq<char>>) -> (CliView, CliOutput) {
    let r0 = initial_results();
    if a.list {
        (CliView { continue_from: ContinueFrom::Close, ..r0 }, CliOutput::PackageList)
    } else if a.free@.len() > 1 {
        rejected(r0)
    } else if a.free@.len() == 1 {
        outcome_humans(
            a,
            lower,
            CliView { continue_from: ContinueFrom::Game, package: Some(a.free@[0]@), ..r0 },
        )
    } else {
        outcome_humans(a, lower, r0)
    }
}

fn copy_text(s: &String) -> (r: String)
    ensures
        r@ == s@,
{
    string_from_chars(&chars_of(s.as_str()))
}

fn copy_opt(s: &Option<String>) -> (r: Option<String>)
    ensures
        opt_view(r) == opt_view(*s),
{
    match s {
        Some(t) => Some(copy_text(t)),
        None => None,
    }
}

fn close_with_usage(r: &mut CLIResults) -> (out: CliOutput)
    ensures
        (final(r)@, out) == rejected(old(r)@),
{
    r.continue_from = ContinueFrom::Close;
    CliOutput::Usage
}

/// The decisions for the options `args`, given the lowercased `-g` value
/// `graphics_lower` (see `cli_outcome`).
pub fn cli_decide(args: &CliArgs, graphics_lower: Option<String>) -> (r: (CLIResults, CliOutput))
    ensures
        (r.0@, r.1) == cli_outcome(*args, opt_view(graphics_lower)),
{
    let ghost a = *args;
    let ghost lower = opt_view(graphics_lower);
    assert((usize::MAX as u64) as int == usize::MAX as int);
    let mut results = CLIResults::new();
    if args.list {
        results.continue_from = ContinueFrom::Close;
        return (results, CliOutput::PackageList);
    }
    if args.free.len() > 1 {
        let out = close_with_usage(&mut results);
        return (results, out);
    } else if args.free.len() == 1 {
        results.continue_from = ContinueFrom::Game;
        results.package = Some(copy_text(&args.free[0]));
    }
    assert(cli_outcome(a, lower) == outcome_humans(a, lower, results@));
    if let Some(players) = &args.human_players {
        match crate::text::parse_unsigned(players.as_str(), usize::MAX as u64) {
            Some(v) => {
                assert(crate::text::spec_parse_unsigned(players@, usize::MAX as int) == Some(
                    v as int,
                ));
                results.continue_from = ContinueFrom::Game;
                results.max_human_players = Some(v as usize);
            },
            None => {
                let out = close_with_usage(&mut results);
                return (results, out);
            },
        }
    }
    assert(cli_outcome(a, lower) == outcome_cpus(a, lower, results@));
    if let Some(players) = &args.cpu_players {
        match crate::text::parse_unsigned(players.as_str(), usize::MAX as u64) {
            Some(v) => {
                assert(crate::text::spec_parse_unsigned(players@, usize::MAX as int) == Some(
                    v as int,
                ));
                results.continue_from = ContinueFrom::Game;
                results.total_cpu_players = Some(v as usize);
            },
            None => {
                let out = close_with_usage(&mut results);
                return (results, out);
            },
        }
    }
    assert(cli_outcome(a, lower) == outcome_fighters(a, lower, results@));
    let ghost at_fighters = results@;
    if let Some(names) = &args.fighters {
        let pieces = split_chars(&chars_of(names.as_str()), ',');
        let ghost before = results@;
        let mut k: usize = 0;
        while k < pieces.len()
            invariant
                k <= pieces@.len(),
                pieces@.len() == crate::text::split_on(names@, ',').len(),
                forall|j: int|
                    0 <= j < pieces@.len() ==> #[trigger] pieces@[j]@ == crate::text::split_on(
                        names@,
                        ',',
                    )[j],
                results@ == (CliView {
                    fighter_names: before.fighter_names + crate::text::split_on(names@, ',').take(
                        k as int,
                    ),
                    continue_from: if k > 0 {
                        ContinueFrom::Game
                    } else {
                        before.continue_from
                    },
                    ..before
                }),
            decreases pieces@.len() - k,
        {
            results.continue_from = ContinueFrom::Game;
            let ghost prev = results.fighter_names@;
            results.fighter_names.push(string_from_chars(&pieces[k]));
            k = k + 1;
            proof {
                let sp = crate::text::split_on(names@, ',');
                assert(sp.take(k as int) =~= sp.take(k - 1).push(sp[k - 1]));
                assert(results.fighter_names@.map_values(|s: String| s@) =~= prev.map_values(
                    |s: String| s@,
                ).push(sp[k - 1]));
                assert(results@.fighter_names =~= before.fighter_names + sp.take(k as int));
            }
        }
        proof {
            let sp = crate::text::split_on(names@, ',');
            assert(sp.take(sp.len() as int) =~= sp);
        }
    }
    if let Some(stage) = &args.stage {
        results.stage_name = Some(copy_text(stage));
        results.continue_from = ContinueFrom::Game;
    }
    assert(outcome_fighters(a, lower, at_fighters) == outcome_address(a, lower, results@));
    if let Some(address) = &args.address {
        if args.address_is_ip {
            results.address = Some(copy_text(address));
            results.continue_from = ContinueFrom::Netplay;
        } else {
            let out = close_with_usage(&mut results);
            return (results, out);
        }
    }
    assert(cli_outcome(a, lower) == outcome_graphics(a, lower, results@));
    if let Some(l) = &graphics_lower {
        match backend_named(l.as_str()) {
            Some(b) => {
                results.graphics_backend = b;
            },
            None => {
                let out = close_with_usage(&mut results);
                return (results, out);
            },
        }
    }
    assert(cli_outcome(a, lower) == outcome_netplay_players(a, results@));
    if let Some(players) = &args.netplay_players {
        match crate::text::parse_unsigned(players.as_str(), 255) {
            Some(v) => {
                assert(crate::text::spec_parse_unsigned(players@, u8::MAX as int) == Some(
                    v as int,
                ));
                results.netplay_players = Some(v as u8);
                results.continue_from = ContinueFrom::MatchMaking;
            },
            None => {
                let out = close_with_usage(&mut results);
                return (results, out);
            },
        }
    }
    assert(cli_outcome(a, lower) == outcome_region(a, results@));
    if let Some(region) = &args.netplay_region {
        results.netplay_region = Some(copy_text(region));
        results.continue_from = ContinueFrom::MatchMaking;
    }
    (results, CliOutput::Nothing)
}

/// The decisions for the options `args` (see `cli_outcome`); the `-g`
/// value is compared in lowercase.
pub fn cli(args: &CliArgs) -> (r: (CLIResults, CliOutput))
    ensures
        (r.0@, r.1) == cli_outcome(
            *args,
            match args.graphics {
                Some(g) => Some(lowercase(g@)),
                None => None,
            },
        ),
{
    let lower = match &args.graphics {
        Some(g) => Some(to_lowercase(g.as_str())),
        None => None,
    };
    cli_decide(args, lower)
}


/// Whether the options ask for a game: a package name, `-h`, `-c`, `-f`
/// with at least one fighter, or `-s`.
pub open spec fn asks_for_game(a: CliArgs) -> bool {
    ||| a.free@.len() == 1
    ||| a.human_players is Some
    ||| a.cpu_players is Some
    ||| a.fighters matches Some(f) && crate::text::split_on(f@, ',').len() > 0
    ||| a.stage is Some
}

/// Where an accepted command line continues: matchmaking when `-n` or `-r`
/// is given, else netplay when `-a` is given, else a game when a package,
/// players, fighters or a stage are given, else the menu. A stage given
/// with `-s` is the stage of what follows.
pub proof fn law_accepted_command_line_continues(a: CliArgs, lower: Option<Seq<char>>)
    requires
        cli_outcome(a, lower).0.continue_from != ContinueFrom::Close,
    ensures
        cli_outcome(a, lower).0.continue_from == if a.netplay_players is Some || a.netplay_region is Some {
            ContinueFrom::MatchMaking
        } else if a.address is Some {
            ContinueFrom::Netplay
        } else if asks_for_game(a) {
            ContinueFrom::Game
        } else {
            ContinueFrom::Menu
        },
        a.stage matches Some(s) ==> cli_outcome(a, lower).0.stage_name == Some(s@),
{
}

} // verus!
