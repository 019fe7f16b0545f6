//! Game setup data and the editor's selection of stage surfaces.

use vstd::prelude::*;
use crate::cli::{CLIResults, CliView};

verus! {

/// What the editor is working on.
#[derive(Clone, Copy, Debug, PartialEq, Eq, Structural)]
pub enum Edit {
    /// index to player
    Fighter(usize),
    Player(usize),
    Stage,
}

impl Edit {
    pub fn default_edit() -> (e: Edit)
        ensures
            e == Edit::Stage,
    {
        Edit::Stage
    }
}

/// A selected end point of a stage surface: the first or second point of
/// the surface with the given index.
#[derive(Clone, Copy, Debug, PartialEq, Eq, Structural, Hash)]
pub enum SurfaceSelection {
    P1(usize),
    P2(usize),
}

impl SurfaceSelection {
    pub open spec fn spec_index(self) -> usize {
        match self {
            SurfaceSelection::P1(i) => i,
            SurfaceSelection::P2(i) => i,
        }
    }

    /// The index of the selected surface.
    pub fn index(&self) -> (i: usize)
        ensures
            i == self.spec_index(),
    {
        match self {
            SurfaceSelection::P1(index) | SurfaceSelection::P2(index) => *index,
        }
    }

    pub fn default_selection() -> (s: SurfaceSelection)
        ensures
            s == SurfaceSelection::P1(0),
    {
        SurfaceSelection::P1(0)
    }
}

/// A player of a game about to start: the fighter's key and the team.
#[derive(Clone, Debug)]
pub struct PlayerSetup {
    pub fighter: String,
    pub team: usize,
}

/// `chrono::Local::now().timestamp()`: the current time in whole seconds
/// since the Unix epoch. Nothing is claimed of its value.
#[verifier::external_body]
fn now_timestamp() -> (t: i64) {
    chrono::Local::now().timestamp()
}

/// The seed taken from a time in seconds: its bits as an unsigned number.
pub fn seed_from_time(t: i64) -> (s: u64)
    ensures
        s == t as u64,
{
    t as u64
}

/// A seed for a game that is not played over the network: the current time
/// in seconds, taken as an unsigned number (see `seed_from_time`).
pub fn gen_seed() -> (seed: u64) {
    let t = now_timestamp();
    seed_from_time(t)
}

/// The seed of the next game: the netplay session's seed when a session
/// runs, else a fresh one from `gen_seed`.
pub fn game_seed(netplay_seed: Option<u64>) -> (seed: u64)
    ensures
        netplay_seed matches Some(s) ==> seed == s,
{
    match netplay_seed {
        Some(s) => s,
        None => gen_seed(),
    }
}

/// A player's death: who caused it (None for a self-destruct) and when.
#[derive(Clone, Copy, Debug, PartialEq, Eq, Structural)]
pub struct DeathRecord {
    pub player: Option<usize>,
    pub frame: usize,
}

/// Strictly increasing.
pub open spec fn strictly_sorted(s: Seq<usize>) -> bool {
    forall|i: int, j: int| 0 <= i < j < s.len() ==> s[i] < s[j]
}

/// The surfaces that have at least one end point selected, each once, ascending.
pub fn surfaces_vec(selected: &[SurfaceSelection]) -> (r: Vec<usize>)
    ensures
        strictly_sorted(r@),
        forall|i: usize| #[trigger] r@.contains(i) <==> exists|k: int|
            0 <= k < selected@.len() && (#[trigger] selected@[k]).spec_index() == i,
{
    let mut result: Vec<usize> = Vec::new();
    let mut k: usize = 0;
    while k < selected.len()
        invariant
            0 <= k <= selected@.len(),
            strictly_sorted(result@),
            forall|i: usize| #[trigger] result@.contains(i) <==> exists|q: int|
                0 <= q < k && (#[trigger] selected@[q]).spec_index() == i,
        decreases selected@.len() - k,
    {
        let idx = selected[k].index();
        // find where idx belongs
        let mut pos: usize = 0;
        while pos < result.len() && result[pos] < idx
            invariant
                0 <= pos <= result@.len(),
                strictly_sorted(result@),
                forall|j: int| 0 <= j < pos ==> result@[j] < idx,
            decreases result@.len() - pos,
        {
            pos = pos + 1;
        }
        let ghost before = result@;
        if pos < result.len() && result[pos] == idx {
            // already present
        } else {
            result.insert(pos, idx);
            proof {
                assert forall|a: int, b: int| 0 <= a < b < result@.len() implies result@[a]
                    < result@[b] by {
                    if b < pos as int {
                        assert(result@[a] == before[a] && result@[b] == before[b]);
                    } else if b == pos as int {
                        assert(result@[a] == before[a]);
                    } else if a < pos as int {
                        assert(result@[a] == before[a] && result@[b] == before[b - 1]);
                    } else if a == pos as int {
                        assert(result@[b] == before[b - 1]);
                        assert(before[pos as int] > idx);
                    } else {
                        assert(result@[a] == before[a - 1] && result@[b] == before[b - 1]);
                    }
                }
            }
        }
        proof {
            assert forall|i: usize| #[trigger] result@.contains(i) <==> exists|q: int|
                0 <= q < k + 1 && (#[trigger] selected@[q]).spec_index() == i by {
                if result@.contains(i) {
                    let j = choose|j: int| 0 <= j < result@.len() && result@[j] == i;
                    if i != idx {
                        if result@.len() == before.len() {
                            assert(before.contains(i));
                        } else {
                            if j < pos as int {
                                assert(before[j] == i);
                            } else {
                                assert(before[j - 1] == i);
                            }
                            assert(before.contains(i));
                        }
                    } else {
                        assert(selected@[k as int].spec_index() == i);
                    }
                }
                if exists|q: int| 0 <= q < k + 1 && (#[trigger] selected@[q]).spec_index() == i {
                    let q = choose|q: int| 0 <= q < k + 1 && (#[trigger] selected@[q]).spec_index() == i;
                    if q < k {
                        assert(before.contains(i));
                        let j = choose|j: int| 0 <= j < before.len() && before[j] == i;
                        if result@.len() == before.len() {
                            assert(result@[j] == i);
                        } else if j < pos as int {
                            assert(result@[j] == i);
                        } else {
                            assert(result@[j + 1] == i);
                        }
                    } else {
                        assert(result@[pos as int] == i);
                    }
                }
            }
        }
        k = k + 1;
    }
    result
}


/// Why a game cannot start straight from the command line.
pub enum SetupError {
    /// The package has no fighters.
    NoFighters,
    /// The package has no stages.
    NoStages,
    /// A fighter named on the command line is not in the package.
    MissingFighter(String),
    /// The stage named on the command line is not in the package.
    MissingStage(String),
}

/// `SetupError` with its names as sequences of characters.
pub enum SetupErrorView {
    NoFighters,
    NoStages,
    MissingFighter(Seq<char>),
    MissingStage(Seq<char>),
}

impl View for SetupError {
    type V = SetupErrorView;

    open spec fn view(&self) -> SetupErrorView {
        match self {
            SetupError::NoFighters => SetupErrorView::NoFighters,
            SetupError::NoStages => SetupErrorView::NoStages,
            SetupError::MissingFighter(n) => SetupErrorView::MissingFighter(n@),
            SetupError::MissingStage(n) => SetupErrorView::MissingStage(n@),
        }
    }
}

/// The players, controllers, computer players and stage of a game started
/// from the command line.
pub struct SetupPlan {
    pub players: Vec<PlayerSetup>,
    /// The controller of each player, in player order.
    pub controllers: Vec<usize>,
    /// One entry per computer player.
    pub ais: Vec<usize>,
    pub stage: String,
}

/// `SetupPlan` as values: each player as its fighter key and team.
pub struct SetupPlanView {
    pub players: Seq<(Seq<char>, usize)>,
    pub controllers: Seq<usize>,
    pub ais: Seq<usize>,
    pub stage: Seq<char>,
}

impl View for SetupPlan {
    type V = SetupPlanView;

    open spec fn view(&self) -> SetupPlanView {
        SetupPlanView {
            players: self.players@.map_values(|p: PlayerSetup| (p.fighter@, p.team)),
            controllers: self.controllers@,
            ais: self.ais@,
            stage: self.stage@,
        }
    }
}

/// The first of `names`, from index `i` on, that is not among `keys`.
pub open spec fn first_unknown(names: Seq<Seq<char>>, keys: Seq<Seq<char>>, i: int) -> Option<Seq<char>>
    decreases names.len() - i,
{
    if i < 0 || i >= names.len() {
        None
    } else if !keys.contains(names[i]) {
        Some(names[i])
    } else {
        first_unknown(names, keys, i + 1)
    }
}

/// The number of human players: one per controller, at most the maximum
/// asked for.
pub open spec fn human_count(r: CliView, controllers: usize) -> int {
    match r.max_human_players {
        Some(m) => if m < controllers { m as int } else { controllers as int },
        None => controllers as int,
    }
}

/// The number of computer players asked for.
pub open spec fn cpu_count(r: CliView) -> int {
    match r.total_cpu_players {
        Some(t) => t as int,
        None => 0,
    }
}

/// The fighters that players take in turn: those named on the command line,
/// or else the package's first fighter.
pub open spec fn fighter_cycle(r: CliView, fighter_keys: Seq<Seq<char>>) -> Seq<Seq<char>> {
    if r.fighter_names.len() == 0 {
        seq![fighter_keys[0]]
    } else {
        r.fighter_names
    }
}

/// The game set up from the command line's choices, for a package with the
/// given fighter and stage keys and `controllers` plugged-in controllers.
/// Human players come first, one per controller up to the maximum; then the
/// computer players, on the controller numbers after the plugged-in ones.
/// Player `i` plays the fighter at `i` in the cycle of fighters, on team `i`.
/// The stage is the one named, or the package's first.
pub open spec fn planned_game(r: CliView, fighter_keys: Seq<Seq<char>>, stage_keys: Seq<Seq<char>>, controllers: usize) -> SetupPlanView {
    let names = fighter_cycle(r, fighter_keys);
    let h = human_count(r, controllers);
    let c = cpu_count(r);
    SetupPlanView {
        players: Seq::new((h + c) as nat, |i: int| (names[i % (names.len() as int)], i as usize)),
        controllers: Seq::new((h + c) as nat, |i: int| if i < h { i as usize } else { (controllers + (i - h)) as usize }),
        ais: Seq::new(c as nat, |i: int| 0usize),
        stage: match r.stage_name {
            Some(s) => s,
            None => stage_keys[0],
        },
    }
}

/// What starting a game from the command line gives: the first problem
/// found with the package or the names given, or the planned game.
pub open spec fn setup_plan(r: CliView, fighter_keys: Seq<Seq<char>>, stage_keys: Seq<Seq<char>>, controllers: usize) -> Result<SetupPlanView, SetupErrorView> {
    if fighter_keys.len() == 0 {
        Err(SetupErrorView::NoFighters)
    } else if stage_keys.len() == 0 {
        Err(SetupErrorView::NoStages)
    } else if first_unknown(r.fighter_names, fighter_keys, 0) is Some {
        Err(SetupErrorView::MissingFighter(first_unknown(r.fighter_names, fighter_keys, 0)->0))
    } else if r.stage_name matches Some(s) && !stage_keys.contains(s) {
        Err(SetupErrorView::MissingStage(r.stage_name->0))
    } else {
        Ok(planned_game(r, fighter_keys, stage_keys, controllers))
    }
}

/// A result of setting up a game, as values.
pub open spec fn setup_view(s: Result<SetupPlan, SetupError>) -> Result<SetupPlanView, SetupErrorView> {
    match s {
        Ok(p) => Ok(p@),
        Err(e) => Err(e@),
    }
}

/// The position of `name` among `keys`, if it is there.
fn key_position(keys: &Vec<String>, name: &String) -> (r: Option<usize>)
    ensures
        match r {
            Some(i) => i < keys.len() && keys@[i as int]@ == name@,
            None => !keys@.map_values(|k: String| k@).contains(name@),
        },
{
    let mut i: usize = 0;
    while i < keys.len()
        invariant
            i <= keys.len(),
            forall|k: int| 0 <= k < i ==> keys@[k]@ != name@,
        decreases keys.len() - i,
    {
        if crate::text::str_eq(keys[i].as_str(), name.as_str()) {
            return Some(i);
        }
        i = i + 1;
    }
    proof {
        let ks = keys@.map_values(|k: String| k@);
        if ks.contains(name@) {
            let j = choose|j: int| 0 <= j < ks.len() && ks[j] == name@;
            assert(keys@[j]@ == name@);
        }
    }
    None
}

/// Sets up a game straight from the command line: checks that the package
/// has fighters and stages and holds every fighter and the stage named, and
/// fills in players, controllers, computer players and the stage.
pub fn game_setup_from_cli(
    r: &CLIResults,
    fighter_keys: &Vec<String>,
    stage_keys: &Vec<String>,
    controllers: usize,
) -> (s: Result<SetupPlan, SetupError>)
    requires
        r.total_cpu_players matches Some(t) ==> controllers + t <= usize::MAX,
    ensures
        setup_view(s) == setup_plan(r@, fighter_keys@.map_values(|k: String| k@), stage_keys@.map_values(|k: String| k@), controllers),
{
    let ghost fk = fighter_keys@.map_values(|k: String| k@);
    let ghost sk = stage_keys@.map_values(|k: String| k@);
    let ghost rv = r@;
    if fighter_keys.len() == 0 {
        return Err(SetupError::NoFighters);
    }
    if stage_keys.len() == 0 {
        return Err(SetupError::NoStages);
    }
    let mut i: usize = 0;
    while i < r.fighter_names.len()
        invariant
            i <= r.fighter_names.len(),
            rv == r@,
            fk == fighter_keys@.map_values(|k: String| k@),
            sk == stage_keys@.map_values(|k: String| k@),
            fighter_keys.len() > 0,
            stage_keys.len() > 0,
            first_unknown(rv.fighter_names, fk, 0) == first_unknown(rv.fighter_names, fk, i as int),
        decreases r.fighter_names.len() - i,
    {
        assert(rv.fighter_names[i as int] == r.fighter_names@[i as int]@);
        match key_position(fighter_keys, &r.fighter_names[i]) {
            Some(at) => {
                assert(fk[at as int] == rv.fighter_names[i as int]);
            }
            None => {
                return Err(SetupError::MissingFighter(r.fighter_names[i].clone()));
            }
        }
        i = i + 1;
    }
    let stage = match &r.stage_name {
        Some(name) => {
            match key_position(stage_keys, name) {
                Some(at) => {
                    assert(sk[at as int] == name@);
                    name.clone()
                }
                None => {
                    return Err(SetupError::MissingStage(name.clone()));
                }
            }
        }
        None => stage_keys[0].clone(),
    };
    let humans: usize = match r.max_human_players {
        Some(m) => if m < controllers { m } else { controllers },
        None => controllers,
    };
    let cpus: usize = match r.total_cpu_players {
        Some(t) => t,
        None => 0,
    };
    let ghost names = fighter_cycle(rv, fk);
    let ghost plan = planned_game(rv, fk, sk, controllers);
    let cycle_len: usize = if r.fighter_names.len() == 0 { 1 } else { r.fighter_names.len() };
    let mut players: Vec<PlayerSetup> = Vec::new();
    let mut ctrls: Vec<usize> = Vec::new();
    let mut ais: Vec<usize> = Vec::new();
    let total: usize = humans + cpus;
    let mut k: usize = 0;
    while k < total
        invariant
            rv == r@,
            fk == fighter_keys@.map_values(|key: String| key@),
            sk == stage_keys@.map_values(|key: String| key@),
            fighter_keys.len() > 0,
            stage_keys.len() > 0,
            first_unknown(rv.fighter_names, fk, 0) is None,
            rv.stage_name matches Some(n) ==> sk.contains(n),
            stage@ == plan.stage,
            plan == planned_game(rv, fk, sk, controllers),
            names == fighter_cycle(rv, fk),
            cycle_len == names.len(),
            humans == human_count(rv, controllers),
            cpus == cpu_count(rv),
            humans <= controllers,
            total == humans + cpus,
            controllers + cpus <= usize::MAX,
            k <= total,
            players.len() == k,
            ctrls.len() == k,
            ais.len() == if k <= humans { 0 } else { k - humans },
            forall|j: int| 0 <= j < k ==> players@[j].fighter@ == names[j % (names.len() as int)] && players@[j].team == j,
            forall|j: int| 0 <= j < k ==> ctrls@[j] == if j < humans { j as usize } else { (controllers + (j - humans)) as usize },
            forall|j: int| 0 <= j < ais.len() ==> ais@[j] == 0,
        decreases total - k,
    {
        let at: usize = k % cycle_len;
        let fighter = if r.fighter_names.len() == 0 {
            fighter_keys[0].clone()
        } else {
            r.fighter_names[at].clone()
        };
        players.push(PlayerSetup { fighter, team: k });
        if k < humans {
            ctrls.push(k);
        } else {
            ctrls.push(controllers + (k - humans));
            ais.push(0);
        }
        k = k + 1;
    }
    let p = SetupPlan { players, controllers: ctrls, ais, stage };
    assert(p@.players =~= plan.players);
    assert(p@.controllers =~= plan.controllers);
    assert(p@.ais =~= plan.ais);
    Ok(p)
}


/// Whether player `a` ranks ahead of player `b` at the end of a game, where
/// each player's key is its number of deaths and then a tie-break, lower
/// being better in both, and equal keys keep the players' order.
pub open spec fn ranks_ahead(keys: Seq<(usize, u64)>, a: int, b: int) -> bool {
    ||| keys[a].0 < keys[b].0
    ||| keys[a].0 == keys[b].0 && keys[a].1 < keys[b].1
    ||| keys[a].0 == keys[b].0 && keys[a].1 == keys[b].1 && a < b
}

/// How many of the players before `m` rank ahead of player `j`.
pub open spec fn count_ahead(keys: Seq<(usize, u64)>, j: int, m: int) -> nat
    decreases m,
{
    if m <= 0 {
        0
    } else {
        count_ahead(keys, j, m - 1) + if ranks_ahead(keys, m - 1, j) { 1nat } else { 0nat }
    }
}

/// Where player `j` finishes, counting from 0: the number of players that
/// rank ahead of it.
pub open spec fn place_of(keys: Seq<(usize, u64)>, j: int) -> nat {
    count_ahead(keys, j, keys.len() as int)
}

proof fn lemma_count_ahead_bound(keys: Seq<(usize, u64)>, j: int, m: int)
    requires
        m >= 0,
    ensures
        count_ahead(keys, j, m) + (if 0 <= j < m { 1int } else { 0int }) <= m,
    decreases m,
{
    if m > 0 {
        lemma_count_ahead_bound(keys, j, m - 1);
    }
}

proof fn lemma_count_ahead_grows(keys: Seq<(usize, u64)>, a: int, b: int, m: int)
    requires
        m >= 0,
        ranks_ahead(keys, a, b),
    ensures
        count_ahead(keys, a, m) + (if 0 <= a < m { 1int } else { 0int }) <= count_ahead(keys, b, m),
    decreases m,
{
    if m > 0 {
        lemma_count_ahead_grows(keys, a, b, m - 1);
    }
}

/// The players, best first, in the order a game's results rank them: by
/// fewest deaths, then by the lower tie-break, then in player order. Player
/// `j` stands at its place. Under the kill and death score every tie-break
/// is 0 (kills are not counted); under last man standing it orders the final
/// damage of players with deaths. The results hand out this list as the
/// players' places: player `i` is given the entry at `i`.
pub fn rank_players(keys: &Vec<(usize, u64)>) -> (r: Vec<usize>)
    ensures
        r.len() == keys.len(),
        forall|j: int| 0 <= j < keys.len() ==> place_of(keys@, j) < keys.len() && r@[place_of(keys@, j) as int] == j,
{
    let n = keys.len();
    let mut r: Vec<usize> = Vec::new();
    let mut k: usize = 0;
    while k < n
        invariant
            n == keys.len(),
            k <= n,
            r.len() == k,
        decreases n - k,
    {
        r.push(0);
        k = k + 1;
    }
    let mut j: usize = 0;
    while j < n
        invariant
            n == keys.len(),
            r.len() == n,
            j <= n,
            forall|i: int| 0 <= i < j ==> place_of(keys@, i) < n && r@[place_of(keys@, i) as int] == i,
        decreases n - j,
    {
        let mut place: usize = 0;
        let mut e: usize = 0;
        while e < n
            invariant
                n == keys.len(),
                j < n,
                e <= n,
                place == count_ahead(keys@, j as int, e as int),
                place <= e,
            decreases n - e,
        {
            let (de, te) = keys[e];
            let (dj, tj) = keys[j];
            if de < dj || (de == dj && te < tj) || (de == dj && te == tj && e < j) {
                place = place + 1;
            }
            e = e + 1;
        }
        proof {
            lemma_count_ahead_bound(keys@, j as int, n as int);
            assert forall|i: int| 0 <= i < j implies place_of(keys@, i) != place_of(keys@, j as int) by {
                if ranks_ahead(keys@, i, j as int) {
                    lemma_count_ahead_grows(keys@, i, j as int, n as int);
                } else {
                    lemma_count_ahead_grows(keys@, j as int, i, n as int);
                }
            }
        }
        r.set(place, j);
        j = j + 1;
    }
    r
}

} // verus!
