//! Data of the earlier engine generation that packages and tools still name:
//! its rules, menu and camera modes, debug toggles and command line choices.

use vstd::prelude::*;
use crate::cli::CliOutput;
use crate::text::{chars_of, split_chars, string_from_chars};

verus! {

/// The package data format version of the earlier engine.
pub fn engine_version() -> (v: u64)
    ensures
        v == 1,
{
    1
}

/// What a game is played for.
#[derive(Clone, Copy, Debug, PartialEq, Eq, Structural)]
pub enum Goal {
    Training,
    Time,
    Stock,
}

/// The rules of a game mode.
#[derive(Clone, Debug)]
pub struct Rules {
    pub title: String,
    pub goal: Goal,
    pub stock_count: u64,
    pub time_limit: u64,
    pub best_of: u64,
    pub teams: bool,
    pub pause: bool,
    pub friendly_fire: bool,
}

impl Rules {
    /// The base game mode: training, 4 stocks, 480 seconds, best of 3,
    /// pausing allowed, no teams and no friendly fire.
    pub fn base() -> (r: Rules)
        ensures
            r.title@ == "Base Game Mode"@,
            r.goal == Goal::Training,
            r.stock_count == 4,
            r.time_limit == 480,
            r.best_of == 3,
            r.pause,
            !r.teams,
            !r.friendly_fire,
    {
        Rules {
            title: String::from_str("Base Game Mode"),
            goal: Goal::Training,
            stock_count: 4,
            time_limit: 480,
            best_of: 3,
            pause: true,
            teams: false,
            friendly_fire: false,
        }
    }
}

/// Whether the camera follows the players or is moved by hand.
#[derive(Clone, Copy, Debug, PartialEq, Eq, Structural)]
pub enum CameraState {
    Manual,
    Auto,
}

impl CameraState {
    pub fn default_state() -> (c: CameraState)
        ensures
            c == CameraState::Auto,
    {
        CameraState::Auto
    }
}

/// A choice made on the command line of the earlier engine.
#[derive(Clone, Debug)]
pub enum CLIChoice {
    TotalPlayers(usize),
    FighterIndexes(Vec<usize>),
    FighterNames(Vec<String>),
    StageIndex(usize),
    StageName(String),
    Package(String),
    Close,
}

/// Settings of the earlier engine.
#[derive(Clone, Debug)]
pub struct Config {
    pub current_package: String,
}

impl Config {
    pub fn default_config() -> (c: Config)
        ensures
            c.current_package@ == "base_backage"@,
    {
        Config { current_package: String::from_str("base_backage") }
    }
}

/// The screens of the earlier engine's menu.
#[derive(Clone, Copy, Debug, PartialEq, Eq, Structural)]
pub enum MenuState {
    CharacterSelect,
    StageSelect,
    SetRules,
    SwitchPackages,
    BrowsePackages,
    CreatePackage,
    CreateFighter,
    StartGame,
}

/// One player's slot on the earlier engine's character select screen.
#[derive(Clone, Copy, Debug, PartialEq, Eq, Structural)]
pub struct CharacterSelect {
    pub plugged_in: bool,
    pub selection: Option<usize>,
    pub cursor: usize,
}

/// Whether every plugged in player has picked a fighter, so the stage
/// select can start.
pub fn all_selected(selections: &[CharacterSelect]) -> (r: bool)
    ensures
        r == forall|i: int|
            0 <= i < selections@.len() ==> !(#[trigger] selections@[i]).plugged_in
                || selections@[i].selection is Some,
{
    let mut i: usize = 0;
    while i < selections.len()
        invariant
            0 <= i <= selections@.len(),
            forall|j: int|
                0 <= j < i ==> !(#[trigger] selections@[j]).plugged_in
                    || selections@[j].selection is Some,
        decreases selections@.len() - i,
    {
        if selections[i].plugged_in && selections[i].selection.is_none() {
            return false;
        }
        i = i + 1;
    }
    true
}

/// A digital button's state this frame.
#[derive(Clone, Copy, Debug, PartialEq, Eq, Structural)]
pub struct Button {
    /// on
    pub value: bool,
    /// off->on this frame
    pub press: bool,
}

impl Button {
    /// The button read from its state this frame and the previous frame.
    pub fn from_frames(now: bool, before: bool) -> (b: Button)
        ensures
            b.value == now,
            b.press == (now && !before),
    {
        Button { value: now, press: now && !before }
    }
}

/// How a fighter is drawn.
#[derive(Clone, Copy, Debug, PartialEq, Eq, Structural)]
pub enum RenderFighter {
    Normal,
    Debug,
    Hidden,
}

/// Which debug overlays are shown for a player.
#[derive(Clone, Copy, Debug, PartialEq, Eq, Structural)]
pub struct DebugPlayer {
    pub physics: bool,
    pub input: bool,
    pub input_diff: bool,
    pub action: bool,
    pub frame: bool,
    pub stick_vector: bool,
    pub c_stick_vector: bool,
    pub di_vector: bool,
    pub ecb: bool,
    pub fighter: RenderFighter,
    pub cam_area: bool,
}

impl DebugPlayer {
    /// No overlays, the fighter drawn normally.
    pub fn default_debug() -> (d: DebugPlayer)
        ensures
            !d.physics && !d.input && !d.input_diff && !d.action && !d.frame && !d.stick_vector
                && !d.c_stick_vector && !d.di_vector && !d.ecb && !d.cam_area,
            d.fighter == RenderFighter::Normal,
    {
        DebugPlayer {
            physics: false,
            input: false,
            input_diff: false,
            action: false,
            frame: false,
            stick_vector: false,
            c_stick_vector: false,
            di_vector: false,
            ecb: false,
            fighter: RenderFighter::Normal,
            cam_area: false,
        }
    }
}

/// The description of a package in the earlier engine.
#[derive(Clone, Debug)]
pub struct PackageMeta {
    pub engine_version: u64,
    pub save_version: u64,
    pub title: String,
    pub source: String,
    pub signature: String,
    pub read_only: bool,
}

/// What the editor is working on.
#[derive(Clone, Copy, Debug, PartialEq, Eq, Structural)]
pub enum Edit {
    /// index to player
    Fighter(usize),
    Player(usize),
    Stage,
}

/// How a jump was input, if at all.
#[derive(Clone, Copy, Debug, PartialEq, Eq, Structural)]
pub enum JumpResult {
    Button,
    Stick,
    NoJump,
}

impl JumpResult {
    pub fn jump(&self) -> (r: bool)
        ensures
            r == !(*self is NoJump),
    {
        match self {
            JumpResult::Button | JumpResult::Stick => true,
            JumpResult::NoJump => false,
        }
    }
}

/// A command line choice as a value.
pub enum ChoiceView {
    TotalPlayers(usize),
    FighterIndexes(Seq<usize>),
    FighterNames(Seq<Seq<char>>),
    StageIndex(usize),
    StageName(Seq<char>),
    Package(Seq<char>),
    Close,
}

impl View for CLIChoice {
    type V = ChoiceView;

    open spec fn view(&self) -> ChoiceView {
        match self {
            CLIChoice::TotalPlayers(n) => ChoiceView::TotalPlayers(*n),
            CLIChoice::FighterIndexes(v) => ChoiceView::FighterIndexes(v@),
            CLIChoice::FighterNames(v) => ChoiceView::FighterNames(v@.map_values(|s: String| s@)),
            CLIChoice::StageIndex(n) => ChoiceView::StageIndex(*n),
            CLIChoice::StageName(s) => ChoiceView::StageName(s@),
            CLIChoice::Package(s) => ChoiceView::Package(s@),
            CLIChoice::Close => ChoiceView::Close,
        }
    }
}

/// The options of the earlier engine's command line, as text.
pub struct EngineCliArgs {
    /// `-l`: list the packages and close.
    pub list: bool,
    /// The arguments that belong to no option: exactly one package name.
    pub free: Vec<String>,
    /// `-p`: the number of players.
    pub players: Option<String>,
    /// `-F`: fighter indexes separated by commas.
    pub fighter_indexes: Option<String>,
    /// `-f`: fighter names separated by commas.
    pub fighter_names: Option<String>,
    /// `-S`: the stage index.
    pub stage_index: Option<String>,
    /// `-s`: the stage name.
    pub stage_name: Option<String>,
}

/// A number that the text `s` spells, if it is one.
pub open spec fn parsed_index(s: Seq<char>) -> Option<usize> {
    match crate::text::spec_parse_unsigned(s, usize::MAX as int) {
        Some(v) => Some(v as usize),
        None => None,
    }
}

/// A choice made only when its option holds a number.
pub open spec fn number_choice(o: Option<String>, make: spec_fn(usize) -> ChoiceView) -> Seq<ChoiceView> {
    match o {
        Some(s) => match parsed_index(s@) {
            Some(v) => seq![make(v)],
            None => seq![],
        },
        None => seq![],
    }
}

/// The choices of the earlier engine's command line for the options `a`;
/// the package comes last. A fighter index that is not a number closes the
/// game with the usage text; a bad player count or stage index is ignored.
pub open spec fn engine_cli_outcome(a: EngineCliArgs) -> (Seq<ChoiceView>, CliOutput) {
    if a.list {
        (seq![ChoiceView::Close], CliOutput::PackageList)
    } else if a.free@.len() != 1 {
        (seq![ChoiceView::Close], CliOutput::Usage)
    } else {
        let players = number_choice(a.players, |v: usize| ChoiceView::TotalPlayers(v));
        let indexes_ok = match a.fighter_indexes {
            Some(s) => forall|k: int|
                0 <= k < crate::text::split_on(s@, ',').len() ==> #[trigger] parsed_index(
                    crate::text::split_on(s@, ',')[k],
                ) is Some,
            None => true,
        };
        let indexes = match a.fighter_indexes {
            Some(s) => seq![
                ChoiceView::FighterIndexes(
                    crate::text::split_on(s@, ',').map_values(|p: Seq<char>| parsed_index(p)->0),
                ),
            ],
            None => seq![],
        };
        let names = match a.fighter_names {
            Some(s) => seq![ChoiceView::FighterNames(crate::text::split_on(s@, ','))],
            None => seq![],
        };
        let stage_index = number_choice(a.stage_index, |v: usize| ChoiceView::StageIndex(v));
        let stage_name = match a.stage_name {
            Some(s) => seq![ChoiceView::StageName(s@)],
            None => seq![],
        };
        if !indexes_ok {
            (seq![ChoiceView::Close], CliOutput::Usage)
        } else {
            (
                players + indexes + names + stage_index + stage_name + seq![
                    ChoiceView::Package(a.free@[0]@),
                ],
                CliOutput::Nothing,
            )
        }
    }
}

fn push_choice(v: &mut Vec<CLIChoice>, c: CLIChoice)
    ensures
        final(v)@.map_values(|c: CLIChoice| c@) == old(v)@.map_values(|c: CLIChoice| c@).push(c@),
{
    v.push(c);
    assert(v@.map_values(|c: CLIChoice| c@) =~= old(v)@.map_values(|c: CLIChoice| c@).push(c@));
}

fn close_choices() -> (r: Vec<CLIChoice>)
    ensures
        r@.map_values(|c: CLIChoice| c@) == seq![ChoiceView::Close],
{
    let mut r: Vec<CLIChoice> = Vec::new();
    push_choice(&mut r, CLIChoice::Close);
    assert(Seq::<CLIChoice>::empty().map_values(|c: CLIChoice| c@) =~= Seq::<ChoiceView>::empty());
    assert(seq![ChoiceView::Close] =~= Seq::<ChoiceView>::empty().push(ChoiceView::Close));
    r
}

/// The choices of the earlier engine's command line (see `engine_cli_outcome`).
pub fn engine_cli(args: &EngineCliArgs) -> (r: (Vec<CLIChoice>, CliOutput))
    ensures
        (r.0@.map_values(|c: CLIChoice| c@), r.1) == engine_cli_outcome(*args),
{
    let ghost a = *args;
    if args.list {
        return (close_choices(), CliOutput::PackageList);
    }
    if args.free.len() != 1 {
        return (close_choices(), CliOutput::Usage);
    }
    let mut choices: Vec<CLIChoice> = Vec::new();
    assert(choices@.map_values(|c: CLIChoice| c@) =~= Seq::<ChoiceView>::empty());
    let ghost players = number_choice(a.players, |v: usize| ChoiceView::TotalPlayers(v));
    if let Some(p) = &args.players {
        if let Some(v) = crate::text::parse_unsigned(p.as_str(), usize::MAX as u64) {
            push_choice(&mut choices, CLIChoice::TotalPlayers(v as usize));
        }
    }
    assert(choices@.map_values(|c: CLIChoice| c@) =~= players);
    let ghost after_players = choices@.map_values(|c: CLIChoice| c@);
    if let Some(text) = &args.fighter_indexes {
        let pieces = split_chars(&chars_of(text.as_str()), ',');
        let ghost sp = crate::text::split_on(text@, ',');
        let mut result: Vec<usize> = Vec::new();
        let mut k: usize = 0;
        while k < pieces.len()
            invariant
                k <= pieces@.len(),
                a == *args,
                !a.list,
                a.free@.len() == 1,
                args.fighter_indexes == Some(*text),
                sp == crate::text::split_on(text@, ','),
                pieces@.len() == sp.len(),
                forall|j: int| 0 <= j < pieces@.len() ==> #[trigger] pieces@[j]@ == sp[j],
                forall|j: int| 0 <= j < k ==> #[trigger] parsed_index(sp[j]) is Some,
                result@ == sp.take(k as int).map_values(|p: Seq<char>| parsed_index(p)->0),
            decreases pieces@.len() - k,
        {
            let piece = string_from_chars(&pieces[k]);
            match crate::text::parse_unsigned(piece.as_str(), usize::MAX as u64) {
                Some(v) => {
                    result.push(v as usize);
                },
                None => {
                    assert(parsed_index(sp[k as int]) is None);
                    assert(!(parsed_index(sp[k as int]) is Some));
                    return (close_choices(), CliOutput::Usage);
                },
            }
            k = k + 1;
            proof {
                assert(sp.take(k as int) =~= sp.take(k - 1).push(sp[k - 1]));
                assert(result@ =~= sp.take(k as int).map_values(|p: Seq<char>| parsed_index(p)->0));
            }
        }
        proof {
            assert(sp.take(sp.len() as int) =~= sp);
        }
        push_choice(&mut choices, CLIChoice::FighterIndexes(result));
    }
    if let Some(text) = &args.fighter_names {
        let pieces = split_chars(&chars_of(text.as_str()), ',');
        let ghost sp = crate::text::split_on(text@, ',');
        let mut result: Vec<String> = Vec::new();
        let mut k: usize = 0;
        while k < pieces.len()
            invariant
                k <= pieces@.len(),
                pieces@.len() == sp.len(),
                forall|j: int| 0 <= j < pieces@.len() ==> #[trigger] pieces@[j]@ == sp[j],
                result@.map_values(|s: String| s@) == sp.take(k as int),
            decreases pieces@.len() - k,
        {
            let ghost prev = result@;
            result.push(string_from_chars(&pieces[k]));
            k = k + 1;
            proof {
                assert(sp.take(k as int) =~= sp.take(k - 1).push(sp[k - 1]));
                assert(result@.map_values(|s: String| s@) =~= prev.map_values(|s: String| s@).push(
                    sp[k - 1],
                ));
            }
        }
        proof {
            assert(sp.take(sp.len() as int) =~= sp);
        }
        push_choice(&mut choices, CLIChoice::FighterNames(result));
    }
    if let Some(p) = &args.stage_index {
        if let Some(v) = crate::text::parse_unsigned(p.as_str(), usize::MAX as u64) {
            push_choice(&mut choices, CLIChoice::StageIndex(v as usize));
        }
    }
    if let Some(name) = &args.stage_name {
        push_choice(&mut choices, CLIChoice::StageName(string_from_chars(&chars_of(name.as_str()))));
    }
    push_choice(
        &mut choices,
        CLIChoice::Package(string_from_chars(&chars_of(args.free[0].as_str()))),
    );
    let ghost out = engine_cli_outcome(a);
    assert(choices@.map_values(|c: CLIChoice| c@) =~= out.0);
    (choices, CliOutput::Nothing)
}

} // verus!
